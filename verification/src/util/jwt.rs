//! Access tokens: the claims they carry.
use crate::error::{ErrorMessage, HttpError};
use vstd::prelude::*;

verus! {

/// Claims of an access token: the subject (a user id), and when the token
/// was issued and expires, in seconds since the Unix epoch.
pub struct TokenClaims {
    pub sub: String,
    pub iat: usize,
    pub exp: usize,
}

/// Why no token is issued.
#[derive(Clone, Copy, Debug, PartialEq, Eq, Structural)]
pub enum TokenError {
    /// The subject is empty.
    InvalidSubject,
}

/// The last second `chrono` represents (the end of year 262142).
pub const LATEST_SECOND: i64 = 8210266876799;

/// The claims of a token for `user_id`, issued at `now` (seconds since the
/// epoch) and valid for `expires_in` minutes; refused for an empty subject.
pub fn generate_token(user_id: &String, now: i64, expires_in: u64) -> (r: Result<TokenClaims, TokenError>)
    requires
        0 <= now,
        now + expires_in * 60 <= LATEST_SECOND,
        now + expires_in * 60 <= usize::MAX,
    ensures
        user_id@.len() == 0 <==> r == Err::<TokenClaims, TokenError>(TokenError::InvalidSubject),
        r matches Ok(c) ==> c.sub@ == user_id@ && c.iat == now && c.exp == now + expires_in * 60,
{
    if user_id.as_str().unicode_len() == 0 {
        return Err(TokenError::InvalidSubject);
    }
    let exp = now + (expires_in as i64) * 60;
    Ok(TokenClaims { sub: user_id.clone(), iat: now as usize, exp: exp as usize })
}

/// The subject of a token that decoded and validated, or an unauthorized
/// error saying the token is invalid.
pub fn decode_token(decoded: Option<TokenClaims>) -> (r: Result<String, HttpError>)
    ensures
        match decoded {
            Some(c) => r matches Ok(s) && s@ == c.sub@,
            None => r matches Err(e) && e.status == crate::error::UNAUTHORIZED && e.message@
                == ErrorMessage::InvalidToken.text(),
        },
{
    match decoded {
        Some(c) => Ok(c.sub),
        None => Err(HttpError::unauthorized(ErrorMessage::InvalidToken.to_str())),
    }
}

} // verus!
