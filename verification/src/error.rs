//! Error messages shown to clients and HTTP errors carrying a status code.
use vstd::prelude::*;
use vstd::string::StringExecFns;

verus! {

/// The body sent with an HTTP error.
pub struct ErrorResponse {
    pub status: String,
    pub message: String,
}

#[derive(Clone, Copy, Debug, PartialEq, Eq, Structural)]
pub enum ErrorMessage {
    WrongCredentials,
    OtpOrPasswordRequired,
    InvalidOtp,
    InvalidToken,
    EmailExist,
    TokenNotGiven,
    HashingError,
    UserNotFound,
    InsufficientBalance,
    MarketNotFound,
    MarketIsNotActive,
    MarketIsNotClosed,
    OutcomeNotFound,
    InsufficientShares,
    CannotPublishOrder,
}

impl ErrorMessage {
    /// The text shown to clients for each error.
    pub open spec fn text(self) -> Seq<char> {
        match self {
            ErrorMessage::WrongCredentials => "Wrong credentials are given"@,
            ErrorMessage::OtpOrPasswordRequired => "Either old password or OTP is required"@,
            ErrorMessage::InvalidOtp => "Invalid OTP"@,
            ErrorMessage::EmailExist => "Email already exist"@,
            ErrorMessage::InvalidToken => "Token is invalid"@,
            ErrorMessage::TokenNotGiven => "Token is not given"@,
            ErrorMessage::HashingError => "Error while hasing the password"@,
            ErrorMessage::UserNotFound => "User does not exist"@,
            ErrorMessage::InsufficientBalance => "Insufficient Balance"@,
            ErrorMessage::MarketNotFound => "Market does not exist"@,
            ErrorMessage::MarketIsNotActive => "Market is not active"@,
            ErrorMessage::MarketIsNotClosed => "Market is not closed"@,
            ErrorMessage::OutcomeNotFound => "Outcome does not exist"@,
            ErrorMessage::InsufficientShares => "Insufficient Shares"@,
            ErrorMessage::CannotPublishOrder => "Failed to publish order"@,
        }
    }

    pub fn to_str(&self) -> (s: String)
        ensures
            s@ == self.text(),
    {
        match self {
            ErrorMessage::WrongCredentials => String::from_str("Wrong credentials are given"),
            ErrorMessage::OtpOrPasswordRequired => String::from_str(
                "Either old password or OTP is required",
            ),
            ErrorMessage::InvalidOtp => String::from_str("Invalid OTP"),
            ErrorMessage::EmailExist => String::from_str("Email already exist"),
            ErrorMessage::InvalidToken => String::from_str("Token is invalid"),
            ErrorMessage::TokenNotGiven => String::from_str("Token is not given"),
            ErrorMessage::HashingError => String::from_str("Error while hasing the password"),
            ErrorMessage::UserNotFound => String::from_str("User does not exist"),
            ErrorMessage::InsufficientBalance => String::from_str("Insufficient Balance"),
            ErrorMessage::MarketNotFound => String::from_str("Market does not exist"),
            ErrorMessage::MarketIsNotActive => String::from_str("Market is not active"),
            ErrorMessage::MarketIsNotClosed => String::from_str("Market is not closed"),
            ErrorMessage::OutcomeNotFound => String::from_str("Outcome does not exist"),
            ErrorMessage::InsufficientShares => String::from_str("Insufficient Shares"),
            ErrorMessage::CannotPublishOrder => String::from_str("Failed to publish order"),
        }
    }
}

pub const INTERNAL_SERVER_ERROR: u16 = 500;
pub const BAD_REQUEST: u16 = 400;
pub const CONFLICT: u16 = 409;
pub const FORBIDDEN: u16 = 403;
pub const NOT_FOUND: u16 = 404;
pub const UNAUTHORIZED: u16 = 401;

/// An error answered to an HTTP request: a message and a status code.
#[derive(Clone, Debug)]
pub struct HttpError {
    pub message: String,
    pub status: u16,
}

impl HttpError {
    pub fn server_error(message: String) -> (e: HttpError)
        ensures
            e.message@ == message@,
            e.status == INTERNAL_SERVER_ERROR,
    {
        HttpError { message, status: INTERNAL_SERVER_ERROR }
    }

    pub fn bad_request(message: String) -> (e: HttpError)
        ensures
            e.message@ == message@,
            e.status == BAD_REQUEST,
    {
        HttpError { message, status: BAD_REQUEST }
    }

    pub fn conflict(message: String) -> (e: HttpError)
        ensures
            e.message@ == message@,
            e.status == CONFLICT,
    {
        HttpError { message, status: CONFLICT }
    }

    pub fn forbidden(message: String) -> (e: HttpError)
        ensures
            e.message@ == message@,
            e.status == FORBIDDEN,
    {
        HttpError { message, status: FORBIDDEN }
    }

    pub fn not_found(message: String) -> (e: HttpError)
        ensures
            e.message@ == message@,
            e.status == NOT_FOUND,
    {
        HttpError { message, status: NOT_FOUND }
    }

    pub fn unauthorized(message: String) -> (e: HttpError)
        ensures
            e.message@ == message@,
            e.status == UNAUTHORIZED,
    {
        HttpError { message, status: UNAUTHORIZED }
    }

    /// The body of the response to this error: status "fail" and the message.
    pub fn to_response(&self) -> (r: ErrorResponse)
        ensures
            r.status@ == "fail"@,
            r.message@ == self.message@,
    {
        ErrorResponse { status: String::from_str("fail"), message: self.message.clone() }
    }
}

} // verus!
