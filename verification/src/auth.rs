//! Decisions of the sign-up, sign-in, one-time-password and password-reset
//! requests.
use crate::error::{BAD_REQUEST, CONFLICT, ErrorMessage, HttpError, INTERNAL_SERVER_ERROR, NOT_FOUND, UNAUTHORIZED};
use crate::model::Admin;
use crate::validation::admin_dto::AdminResponse;
use crate::text::{number_text, u64_text};
use crate::util::hash::{compare, password_matches};
use rand::Rng;
use vstd::prelude::*;
use vstd::string::StringExecFns;

verus! {

pub const PART1: &'static str = "<!DOCTYPE html>\n            <html>\n            <head>\n            <meta charset=\"utf-8\" />\n            <meta name=\"viewport\" content=\"width=device-width, initial-scale=1.0\" />\n            <title>Your Verification Code</title>\n            </head>\n            <body style=\"margin:0; padding:0; background-color:#f4f5f7; font-family: -apple-system, BlinkMacSystemFont, 'Segoe UI', Roboto, Helvetica, Arial, sans-serif;\">\n            <table role=\"presentation\" width=\"100%\" cellpadding=\"0\" cellspacing=\"0\" style=\"background-color:#f4f5f7; padding: 40px 0;\">\n                <tr>\n                <td align=\"center\">\n                    <table role=\"presentation\" width=\"480\" cellpadding=\"0\" cellspacing=\"0\" style=\"background-color:#ffffff; border-radius:12px; overflow:hidden; box-shadow: 0 2px 8px rgba(0,0,0,0.06);\">\n                    <tr>\n                        <td style=\"padding: 40px 40px 24px 40px; text-align:center;\">\n                        <h1 style=\"margin:0; font-size:20px; color:#111827; font-weight:600;\">Verify your identity</h1>\n                        </td>\n                    </tr>\n                    <tr>\n                        <td style=\"padding: 0 40px 8px 40px; text-align:center;\">\n                        <p style=\"margin:0; font-size:15px; color:#4b5563; line-height:1.5;\">\n                            Hi ";

pub const PART2: &'static str = ", use the code below to complete your verification. This code will expire in 5 minutes.\n                        </p>\n                        </td>\n                    </tr>\n                    <tr>\n                        <td style=\"padding: 32px 40px; text-align:center;\">\n                        <div style=\"display:inline-block; background-color:#f3f4f6; border-radius:8px; padding:16px 32px;\">\n                            <span style=\"font-size:32px; font-weight:700; letter-spacing:8px; color:#111827;\">";

pub const PART3: &'static str = "</span>\n                        </div>\n                        </td>\n                    </tr>\n                    <tr>\n                        <td style=\"padding: 0 40px 32px 40px; text-align:center;\">\n                        <p style=\"margin:0; font-size:13px; color:#9ca3af; line-height:1.5;\">\n                            If you didn't request this code, you can safely ignore this email.\n                        </p>\n                        </td>\n                    </tr>\n                    <tr>\n                        <td style=\"padding: 20px 40px; border-top:1px solid #f0f0f0; text-align:center;\">\n                        <p style=\"margin:0; font-size:12px; color:#9ca3af;\">&copy; ";

pub const PART4: &'static str = " Your Company. All rights reserved.</p>\n                        </td>\n                    </tr>\n                    </table>\n                </td>\n                </tr>\n            </table>\n            </body>\n            </html>";

/// How long a stored one-time password is kept, in seconds.
pub const OTP_CACHE_TTL: u64 = 60;

/// A six-digit one-time password from the thread's random generator
/// (`rand::thread_rng().gen_range(100_000..=999_999)`): claimed of every
/// outcome only that it lies in that range.
#[verifier::external_body]
fn generate_otp() -> (r: u32)
    ensures
        100_000 <= r <= 999_999,
{
    rand::thread_rng().gen_range(100_000..=999_999)
}

/// A freshly drawn one-time password and where it is kept.
pub struct OtpIssue {
    pub code: u32,
    /// The cache key, `otp:` and the address.
    pub key: String,
    /// The stored value, the code's decimal text.
    pub value: String,
    /// How long the stored value is kept, in seconds.
    pub lifetime_seconds: u64,
}

/// Draws a six-digit one-time password for an address; it is stored under
/// `otp:<email>` as its decimal text, for [`OTP_CACHE_TTL`] seconds.
pub fn issue_otp(email: &String) -> (r: OtpIssue)
    ensures
        100_000 <= r.code <= 999_999,
        r.key@ == "otp:"@ + email@,
        r.value@ == number_text(r.code as u64),
        r.lifetime_seconds == OTP_CACHE_TTL,
{
    let code = generate_otp();
    OtpIssue { code, key: otp_key(email), value: otp_text(code), lifetime_seconds: OTP_CACHE_TTL }
}

/// Where the one-time password sent to an e-mail address is kept.
pub fn otp_key(email: &String) -> (r: String)
    ensures
        r@ == "otp:"@ + email@,
{
    String::from_str("otp:").concat(email.as_str())
}

/// The text of a one-time password.
pub fn otp_text(otp: u32) -> (r: String)
    ensures
        r@ == number_text(otp as u64),
{
    u64_text(otp as u64)
}

pub open spec fn email_part1() -> Seq<char> {
    PART1@
}

pub open spec fn email_part2() -> Seq<char> {
    PART2@
}

pub open spec fn email_part3() -> Seq<char> {
    PART3@
}

pub open spec fn email_part4() -> Seq<char> {
    PART4@
}

/// The HTML body of the e-mail carrying a one-time password: the template
/// with the user's name, the code and the current year filled in.
pub fn build_otp_email_html(name: &str, otp: &str, year: &str) -> (r: String)
    ensures
        r@ == email_part1() + name@ + email_part2() + otp@ + email_part3() + year@ + email_part4(),
{
    String::from_str(PART1).concat(name).concat(PART2).concat(otp).concat(PART3).concat(year).concat(PART4)
}

/// Registration is refused with a conflict when the e-mail is taken.
pub fn signup_check(email_taken: bool) -> (r: Result<(), HttpError>)
    ensures
        !email_taken <==> r is Ok,
        r matches Err(e) ==> e.status == CONFLICT && e.message@ == ErrorMessage::EmailExist.text(),
{
    if email_taken {
        Err(HttpError::conflict(ErrorMessage::EmailExist.to_str()))
    } else {
        Ok(())
    }
}

/// Sign-in: an unknown account is refused with wrong credentials; a stored
/// hash that does not parse is a server error; a password that does not
/// match is refused with `mismatch` (wrong credentials for users, an invalid
/// token for administrators).
pub fn signin_check(stored_hash: Option<&String>, password: &String, mismatch: ErrorMessage) -> (r: Result<(), HttpError>)
    ensures
        match stored_hash {
            None => r matches Err(e) && e.status == UNAUTHORIZED && e.message@ == ErrorMessage::WrongCredentials.text(),
            Some(h) => match password_matches(password@, h@) {
                None => r matches Err(e) && e.status == INTERNAL_SERVER_ERROR && e.message@ == ErrorMessage::HashingError.text(),
                Some(true) => r is Ok,
                Some(false) => r matches Err(e) && e.status == UNAUTHORIZED && e.message@ == mismatch.text(),
            },
        },
{
    let h = match stored_hash {
        Some(h) => h,
        None => return Err(HttpError::unauthorized(ErrorMessage::WrongCredentials.to_str())),
    };
    match compare(password, h) {
        Err(e) => Err(HttpError::server_error(e.to_str())),
        Ok(true) => Ok(()),
        Ok(false) => Err(HttpError::unauthorized(mismatch.to_str())),
    }
}

/// An account must exist to receive a one-time password or reset its
/// password.
pub fn account_check(found: bool) -> (r: Result<(), HttpError>)
    ensures
        found <==> r is Ok,
        r matches Err(e) ==> e.status == UNAUTHORIZED && e.message@ == ErrorMessage::WrongCredentials.text(),
{
    if found {
        Ok(())
    } else {
        Err(HttpError::unauthorized(ErrorMessage::WrongCredentials.to_str()))
    }
}

/// A password reset needs the old password or a one-time password.
pub fn reset_request_check(old_password_given: bool, otp_given: bool) -> (r: Result<(), HttpError>)
    ensures
        (old_password_given || otp_given) <==> r is Ok,
        r matches Err(e) ==> e.status == BAD_REQUEST && e.message@ == ErrorMessage::OtpOrPasswordRequired.text(),
{
    if !old_password_given && !otp_given {
        Err(HttpError::bad_request(ErrorMessage::OtpOrPasswordRequired.to_str()))
    } else {
        Ok(())
    }
}

/// A one-time password is accepted when one is stored for the address and
/// it reads the same as the given code.
pub fn otp_check(stored: Option<String>, otp: u32) -> (r: Result<(), HttpError>)
    ensures
        match stored {
            None => r matches Err(e) && e.status == UNAUTHORIZED && e.message@ == "OTP has expired or is invalid"@,
            Some(s) => if s@ == number_text(otp as u64) {
                r is Ok
            } else {
                r matches Err(e) && e.status == UNAUTHORIZED && e.message@ == "Invalid OTP"@
            },
        },
{
    let stored = match stored {
        Some(s) => s,
        None => return Err(HttpError::unauthorized(String::from_str("OTP has expired or is invalid"))),
    };
    if stored != otp_text(otp) {
        return Err(HttpError::unauthorized(String::from_str("Invalid OTP")));
    }
    Ok(())
}

/// Lifetime of the session cookie as the services compute it: the token's
/// lifetime in minutes, times 60, read as minutes.
pub fn cookie_max_age_minutes(jwt_expiration_time: u64) -> (r: i64)
    requires
        jwt_expiration_time * 60 <= i64::MAX,
    ensures
        r == jwt_expiration_time * 60,
{
    (jwt_expiration_time as i64) * 60
}

/// The profile shown to an administrator: not found when the account is
/// gone, otherwise its public fields (the password hash is left out).
pub fn admin_profile(admin: Option<Admin>) -> (r: Result<AdminResponse, HttpError>)
    ensures
        match admin {
            None => r matches Err(e) && e.status == NOT_FOUND && e.message@
                == ErrorMessage::UserNotFound.text(),
            Some(a) => r matches Ok(p) && p.id == a.id && p.name == a.name && p.email == a.email
                && p.created_at == a.created_at && p.updated_at == a.updated_at,
        },
{
    match admin {
        None => Err(HttpError::not_found(ErrorMessage::UserNotFound.to_str())),
        Some(a) => Ok(AdminResponse::from(a)),
    }
}

/// A stored one-time password accepts exactly the code it was issued for:
/// the texts of two codes agree only when the codes do.
pub proof fn law_otp_accepts_only_its_code(issued: u32, given: u32)
    ensures
        number_text(issued as u64) == number_text(given as u64) <==> issued == given,
{
    crate::config::law_number_text_injective(issued as u64, given as u64);
}

} // verus!
