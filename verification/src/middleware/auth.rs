//! Bearer tokens: who a request comes from.

use crate::errors::AppError;
use crate::text::has_prefix;
use crate::text::starts_with;
use crate::text::strip_prefixes;
use crate::text::trim;
use crate::text::trim_start_matches;
use crate::text::trimmed;
use jsonwebtoken::decode;
use jsonwebtoken::encode;
use jsonwebtoken::DecodingKey;
use jsonwebtoken::EncodingKey;
use jsonwebtoken::Header;
use jsonwebtoken::Validation;
use vstd::prelude::*;
use vstd::string::StringExecFns;

verus! {

/// What a token says: whose it is and the second at which it expires.
#[derive(Debug)]
pub struct Claims {
    pub user_id: i32,
    pub exp: usize,
}

/// The user that a request has proved to come from.
#[derive(Debug)]
pub struct AuthenticatedUser {
    pub user_id: i32,
}

/// The token signed with HS256 under `secret` whose claims are `user_id`
/// and the expiry `exp`, or `None` where the library reports an error.
pub uninterp spec fn jwt_signed(user_id: int, exp: int, secret: Seq<char>) -> Option<Seq<char>>;

/// The token that an `Authorization` header carries: what follows
/// `Bearer `, without surrounding whitespace. A header that does not begin
/// with `Bearer ` carries none.
pub open spec fn spec_bearer_token(header: Seq<char>) -> Option<Seq<char>> {
    if has_prefix(header, "Bearer "@) {
        Some(trimmed(strip_prefixes(header, "Bearer "@)))
    } else {
        None
    }
}

/// The token that an `Authorization` header carries.
pub fn bearer_token(header: &str) -> (r: Option<String>)
    ensures
        match spec_bearer_token(header@) {
            Some(token) => r matches Some(t) && t@ == token,
            None => r is None,
        },
{
    if !starts_with(header, "Bearer ") {
        return None;
    }
    let token = trim(trim_start_matches(header, "Bearer "));
    Some(String::from_str(token))
}

/// The user that decoded claims stand for; claims that could not be
/// decoded stand for nobody.
pub fn user_of_claims(decoded: Option<Claims>) -> (r: Result<AuthenticatedUser, AppError>)
    ensures
        match decoded {
            Some(claims) => r matches Ok(user) && user.user_id == claims.user_id,
            None => r matches Err(e) && e is Unauthorized,
        },
{
    match decoded {
        Some(claims) => Ok(AuthenticatedUser { user_id: claims.user_id }),
        None => Err(AppError::Unauthorized),
    }
}

/// The claims that the two numbers read from a token make: both must be
/// there, the user a 32-bit number and the expiry one that fits the
/// machine's word.
pub open spec fn spec_claims_of(user_id: Option<i64>, exp: Option<u64>) -> Option<Claims> {
    if user_id is Some && exp is Some && i32::MIN <= user_id->0 <= i32::MAX && exp->0
        <= usize::MAX {
        Some(Claims { user_id: user_id->0 as i32, exp: exp->0 as usize })
    } else {
        None
    }
}

/// The claims of a token that was checked, from the two numbers read from
/// it; a token that failed the check has none.
pub fn claims_of(decoded: Option<(Option<i64>, Option<u64>)>) -> (r: Option<Claims>)
    ensures
        r == (match decoded {
            Some((user_id, exp)) => spec_claims_of(user_id, exp),
            None => None,
        }),
{
    match decoded {
        Some((Some(user_id), Some(exp))) => {
            if user_id < i32::MIN as i64 || user_id > i32::MAX as i64 || exp > usize::MAX as u64 {
                None
            } else {
                Some(Claims { user_id: user_id as i32, exp: exp as usize })
            }
        },
        _ => None,
    }
}

/// Finds out who sent a request from its `Authorization` header: the
/// header must carry a bearer token that is signed under `jwt_secret` and
/// has not expired. A header without a bearer token is refused whatever
/// the clock says.
pub fn authenticate(header: &str, jwt_secret: &str) -> (r: Result<AuthenticatedUser, AppError>)
    ensures
        spec_bearer_token(header@) is None ==> r is Err,
        r matches Err(e) ==> e is Unauthorized,
{
    match bearer_token(header) {
        Some(token) => user_of_claims(claims_of(jwt_decode(token.as_str(), jwt_secret))),
        None => Err(AppError::Unauthorized),
    }
}

/// Signs the claims `user_id` and `exp`, written in that order, with
/// `jsonwebtoken::encode` under the default header and the key made from
/// `secret`. Trusted: the outcome depends on the three arguments alone.
#[verifier::external_body]
pub(crate) fn jwt_encode(user_id: i32, exp: u64, secret: &str) -> (r: Option<String>)
    ensures
        jwt_signed(user_id as int, exp as int, secret@) == (match r {
            Some(token) => Some(token@),
            None => None,
        }),
{
    let text = format!("{{\"user_id\":{},\"exp\":{}}}", user_id, exp);
    let claims = serde_json::value::RawValue::from_string(text).ok()?;
    encode(&Header::default(), &claims, &EncodingKey::from_secret(secret.as_bytes())).ok()
}

/// Checks `token` with `jsonwebtoken::decode` under the default validation
/// and the key made from `secret`, and reads the claims `user_id` and
/// `exp` where they are whole numbers. The check compares the expiry with
/// the clock, so nothing is claimed of the outcome.
#[verifier::external_body]
fn jwt_decode(token: &str, secret: &str) -> (r: Option<(Option<i64>, Option<u64>)>) {
    let key = DecodingKey::from_secret(secret.as_bytes());
    let checked = decode::<serde_json::Map<String, serde_json::Value>>(
        token,
        &key,
        &Validation::default(),
    );
    match checked {
        Ok(data) => Some(
            (
                data.claims.get("user_id").and_then(|v| v.as_i64()),
                data.claims.get("exp").and_then(|v| v.as_u64()),
            ),
        ),
        Err(_) => None,
    }
}

} // verus!
