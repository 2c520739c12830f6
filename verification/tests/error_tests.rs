use polymarket::error::{
    ErrorMessage, HttpError, BAD_REQUEST, CONFLICT, FORBIDDEN, INTERNAL_SERVER_ERROR, NOT_FOUND,
    UNAUTHORIZED,
};

#[test]
fn messages_shown_to_clients() {
    assert_eq!(ErrorMessage::WrongCredentials.to_str(), "Wrong credentials are given");
    assert_eq!(ErrorMessage::OtpOrPasswordRequired.to_str(), "Either old password or OTP is required");
    assert_eq!(ErrorMessage::InvalidOtp.to_str(), "Invalid OTP");
    assert_eq!(ErrorMessage::InvalidToken.to_str(), "Token is invalid");
    assert_eq!(ErrorMessage::EmailExist.to_str(), "Email already exist");
    assert_eq!(ErrorMessage::TokenNotGiven.to_str(), "Token is not given");
    assert_eq!(ErrorMessage::HashingError.to_str(), "Error while hasing the password");
    assert_eq!(ErrorMessage::UserNotFound.to_str(), "User does not exist");
    assert_eq!(ErrorMessage::InsufficientBalance.to_str(), "Insufficient Balance");
    assert_eq!(ErrorMessage::MarketNotFound.to_str(), "Market does not exist");
    assert_eq!(ErrorMessage::MarketIsNotActive.to_str(), "Market is not active");
    assert_eq!(ErrorMessage::MarketIsNotClosed.to_str(), "Market is not closed");
    assert_eq!(ErrorMessage::OutcomeNotFound.to_str(), "Outcome does not exist");
    assert_eq!(ErrorMessage::InsufficientShares.to_str(), "Insufficient Shares");
    assert_eq!(ErrorMessage::CannotPublishOrder.to_str(), "Failed to publish order");
}

#[test]
fn http_errors_carry_their_status() {
    assert_eq!(HttpError::server_error("a".to_string()).status, INTERNAL_SERVER_ERROR);
    assert_eq!(HttpError::bad_request("a".to_string()).status, BAD_REQUEST);
    assert_eq!(HttpError::conflict("a".to_string()).status, CONFLICT);
    assert_eq!(HttpError::forbidden("a".to_string()).status, FORBIDDEN);
    assert_eq!(HttpError::not_found("a".to_string()).status, NOT_FOUND);
    assert_eq!(HttpError::unauthorized("a".to_string()).status, UNAUTHORIZED);
    assert_eq!(INTERNAL_SERVER_ERROR, 500);
    assert_eq!(UNAUTHORIZED, 401);
}

#[test]
fn error_response_body() {
    let r = HttpError::not_found("gone".to_string()).to_response();
    assert_eq!(r.status, "fail");
    assert_eq!(r.message, "gone");
}
