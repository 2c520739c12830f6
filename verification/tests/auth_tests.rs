use polymarket::auth::{
    account_check, admin_profile, build_otp_email_html, cookie_max_age_minutes, issue_otp,
    otp_check, otp_key, otp_text, reset_request_check, signin_check, signup_check, OTP_CACHE_TTL, PART1, PART2,
    PART3, PART4,
};
use polymarket::error::{
    ErrorMessage, BAD_REQUEST, CONFLICT, INTERNAL_SERVER_ERROR, NOT_FOUND, UNAUTHORIZED,
};
use polymarket::model::Admin;
use polymarket::util::hash::{compare, generate};
use polymarket::util::jwt::{decode_token, generate_token, TokenClaims, TokenError};

#[test]
fn taken_email_is_a_conflict() {
    assert!(signup_check(false).is_ok());
    let e = signup_check(true).unwrap_err();
    assert_eq!(e.status, CONFLICT);
    assert_eq!(e.message, "Email already exist");
}

#[test]
fn hashed_password_verifies_and_others_do_not() {
    let hash = generate("correct horse".to_string()).unwrap();
    assert_ne!(hash, "correct horse");
    assert_eq!(compare(&"correct horse".to_string(), &hash), Ok(true));
    assert_eq!(compare(&"wrong horse".to_string(), &hash), Ok(false));
}

#[test]
fn malformed_hash_is_a_hashing_error() {
    assert_eq!(
        compare(&"pw".to_string(), &"not a hash".to_string()),
        Err(ErrorMessage::HashingError)
    );
}

#[test]
fn signin_outcomes() {
    let hash = generate("secret-password".to_string()).unwrap();
    let pw = "secret-password".to_string();
    assert!(signin_check(Some(&hash), &pw, ErrorMessage::WrongCredentials).is_ok());

    let e = signin_check(None, &pw, ErrorMessage::WrongCredentials).unwrap_err();
    assert_eq!(e.status, UNAUTHORIZED);
    assert_eq!(e.message, "Wrong credentials are given");

    let bad = "other-password".to_string();
    let e = signin_check(Some(&hash), &bad, ErrorMessage::InvalidToken).unwrap_err();
    assert_eq!(e.status, UNAUTHORIZED);
    assert_eq!(e.message, "Token is invalid");

    let e = signin_check(Some(&"garbage".to_string()), &pw, ErrorMessage::WrongCredentials)
        .unwrap_err();
    assert_eq!(e.status, INTERNAL_SERVER_ERROR);
    assert_eq!(e.message, "Error while hasing the password");
}

#[test]
fn account_must_exist() {
    assert!(account_check(true).is_ok());
    let e = account_check(false).unwrap_err();
    assert_eq!(e.status, UNAUTHORIZED);
    assert_eq!(e.message, "Wrong credentials are given");
}

#[test]
fn reset_needs_old_password_or_otp() {
    assert!(reset_request_check(true, false).is_ok());
    assert!(reset_request_check(false, true).is_ok());
    let e = reset_request_check(false, false).unwrap_err();
    assert_eq!(e.status, BAD_REQUEST);
    assert_eq!(e.message, "Either old password or OTP is required");
}

#[test]
fn otp_is_six_digits_stored_under_the_address() {
    let email = "a@b.io".to_string();
    let issue = issue_otp(&email);
    assert!((100_000..=999_999).contains(&issue.code));
    assert_eq!(issue.key, "otp:a@b.io");
    assert_eq!(issue.value, issue.code.to_string());
    assert_eq!(issue.lifetime_seconds, 60);
    assert_eq!(OTP_CACHE_TTL, 60);
    assert_eq!(otp_key(&email), "otp:a@b.io");
    assert_eq!(otp_text(123456), "123456");
}

#[test]
fn otp_check_outcomes() {
    assert!(otp_check(Some("654321".to_string()), 654321).is_ok());
    let e = otp_check(Some("654321".to_string()), 654320).unwrap_err();
    assert_eq!(e.status, UNAUTHORIZED);
    assert_eq!(e.message, "Invalid OTP");
    let e = otp_check(None, 654321).unwrap_err();
    assert_eq!(e.message, "OTP has expired or is invalid");
}

#[test]
fn otp_email_fills_in_name_code_and_year() {
    let html = build_otp_email_html("Ada", "123456", "2025");
    assert_eq!(html, format!("{PART1}Ada{PART2}123456{PART3}2025{PART4}"));
    assert!(html.contains("This code will expire in 5 minutes."));
    assert!(html.contains("Hi Ada, use the code below"));
    assert!(html.contains(">123456</span>"));
    assert!(html.contains("&copy; 2025 Your Company."));
}

#[test]
fn cookie_lifetime_is_expiration_times_sixty() {
    assert_eq!(cookie_max_age_minutes(60), 3600);
    assert_eq!(cookie_max_age_minutes(0), 0);
}

#[test]
fn token_claims_cover_the_lifetime() {
    let c = generate_token(&"user-1".to_string(), 1_700_000_000, 30).unwrap();
    assert_eq!(c.sub, "user-1");
    assert_eq!(c.iat, 1_700_000_000);
    assert_eq!(c.exp, 1_700_000_000 + 30 * 60);
    assert!(matches!(generate_token(&String::new(), 0, 1), Err(TokenError::InvalidSubject)));
}

#[test]
fn decoded_token_gives_its_subject() {
    let claims = TokenClaims { sub: "u".to_string(), iat: 1, exp: 2 };
    assert_eq!(decode_token(Some(claims)).unwrap(), "u");
    let e = decode_token(None).unwrap_err();
    assert_eq!(e.status, UNAUTHORIZED);
    assert_eq!(e.message, "Token is invalid");
}

#[test]
fn admin_profile_hides_the_password() {
    let admin = Admin {
        id: 3,
        name: "Root".to_string(),
        email: "root@x.io".to_string(),
        password: "hash".to_string(),
        created_at: Some(1),
        updated_at: None,
    };
    let p = admin_profile(Some(admin)).unwrap();
    assert_eq!(p.id, 3);
    assert_eq!(p.name, "Root");
    assert_eq!(p.email, "root@x.io");
    let e = admin_profile(None).unwrap_err();
    assert_eq!(e.status, NOT_FOUND);
    assert_eq!(e.message, "User does not exist");
}
