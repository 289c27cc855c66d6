use vstd::prelude::*;
use vstd::string::{StrSliceExecFns, StringExecFns};
use crate::config::Config;
use crate::text::{has_prefix, starts_with};

verus! {

/// The scheme prefix an `Authorization` header must carry.
pub open spec fn bearer_prefix() -> Seq<char> {
    "Bearer "@
}

/// Earliest UNIX time chrono supports: January 1 of year -262143, 00:00:00 UTC.
pub const MIN_UTC_TIMESTAMP: i64 = -8334601228800;

/// Latest UNIX time chrono supports: December 31 of year 262142, 23:59:59 UTC.
pub const MAX_UTC_TIMESTAMP: i64 = 8210266876799;

/// Whether a UNIX time lies within chrono's supported range.
pub open spec fn in_chrono_range(t: int) -> bool {
    MIN_UTC_TIMESTAMP <= t <= MAX_UTC_TIMESTAMP
}

/// What chrono gives as the UNIX time `hours` hours after `now_ts`, or `None`
/// when that instant lies outside chrono's supported range.
pub uninterp spec fn chrono_hours_later(now_ts: i64, hours: i64) -> Option<i64>;

/// Calls chrono's `DateTime::checked_add_signed` with a `TimeDelta` of
/// `hours` hours on the instant `now_ts`. Claimed, from chrono's
/// documentation and source: it succeeds exactly when both `now_ts` and the
/// instant `hours * 3600` seconds later lie within the supported range of
/// dates (`DateTime::<Utc>::MIN_UTC` to `MAX_UTC`; any such span is well
/// inside the `TimeDelta` bounds), and the result is that later instant.
#[verifier::external_body]
fn hours_later(now_ts: i64, hours: i64) -> (r: Option<i64>)
    ensures
        r == chrono_hours_later(now_ts, hours),
        r.is_some() == (in_chrono_range(now_ts as int) && in_chrono_range(now_ts + hours * 3600)),
        r matches Some(t) ==> t == now_ts + hours * 3600,
{
    let start = chrono::DateTime::from_timestamp(now_ts, 0)?;
    let delta = chrono::TimeDelta::try_hours(hours)?;
    let later = start.checked_add_signed(delta)?;
    Some(later.timestamp())
}

/// The claims a session token carries.
pub struct Claims {
    /// The user the token was issued to.
    pub sub: String,
    /// When the token expires (UNIX time).
    pub exp: usize,
    /// When the token was issued (UNIX time).
    pub iat: usize,
}

impl Claims {
    /// The claims of a token issued to `user_id` at `now_ts` that expires
    /// after the configured number of hours; `None` exactly when the issue
    /// time or the expiry lies outside the supported range of instants.
    pub fn issue(user_id: &str, now_ts: i64, config: &Config) -> (r: Option<Claims>)
        ensures
            r is Some <==> in_chrono_range(now_ts as int) && in_chrono_range(
                now_ts + config.jwt_expires_hours * 3600,
            ),
            r matches Some(c) ==> c.sub@ == user_id@ && c.iat == now_ts as usize && c.exp == (now_ts
                + config.jwt_expires_hours * 3600) as usize,
            match chrono_hours_later(now_ts, config.jwt_expires_hours) {
                None => r is None,
                Some(t) => r matches Some(c) && c.sub@ == user_id@ && c.exp == t as usize && c.iat
                    == now_ts as usize && t == now_ts + config.jwt_expires_hours * 3600,
            },
    {
        match hours_later(now_ts, config.jwt_expires_hours) {
            None => None,
            Some(t) => Some(Claims { sub: String::from_str(user_id), exp: t as usize, iat: now_ts as usize }),
        }
    }
}

/// Why a request is not authenticated.
#[derive(PartialEq, Eq, Structural, Clone, Copy, Debug)]
pub enum AuthRejection {
    /// The `Authorization` header is missing or is not a bearer token.
    MissingToken,
    /// The token does not verify or has expired.
    InvalidToken,
}

impl AuthRejection {
    /// The HTTP status code of the rejection.
    pub fn status_code(&self) -> (r: u16)
        ensures
            r == 401,
    {
        401
    }

    /// The `error` text of the rejection.
    pub fn error_text(&self) -> (r: &'static str)
        ensures
            r@ == match *self {
                AuthRejection::MissingToken => "Missing or invalid Authorization header"@,
                AuthRejection::InvalidToken => "Invalid or expired token"@,
            },
    {
        match self {
            AuthRejection::MissingToken => "Missing or invalid Authorization header",
            AuthRejection::InvalidToken => "Invalid or expired token",
        }
    }
}

/// The token carried by an `Authorization` header of the form
/// `Bearer <token>`.
pub fn bearer_token(header: Option<&str>) -> (r: Result<String, AuthRejection>)
    ensures
        match header {
            Some(h) => if has_prefix(h@, bearer_prefix()) {
                r matches Ok(t) && t@ == h@.subrange(bearer_prefix().len() as int, h@.len() as int)
            } else {
                r == Err::<String, AuthRejection>(AuthRejection::MissingToken)
            },
            None => r == Err::<String, AuthRejection>(AuthRejection::MissingToken),
        },
{
    match header {
        Some(h) => {
            if starts_with(h, "Bearer ") {
                proof {
                    reveal_strlit("Bearer ");
                }
                let len = h.unicode_len();
                Ok(String::from_str(h.substring_char(7, len)))
            } else {
                Err(AuthRejection::MissingToken)
            }
        },
        None => Err(AuthRejection::MissingToken),
    }
}

/// The user a request is made for.
pub struct AuthUser {
    pub id: String,
}

impl AuthUser {
    /// The authenticated user, given the claims of the request's token when
    /// it verified.
    pub fn from_verified(claims: Option<Claims>) -> (r: Result<AuthUser, AuthRejection>)
        ensures
            match claims {
                Some(c) => r matches Ok(u) && u.id == c.sub,
                None => r == Err::<AuthUser, AuthRejection>(AuthRejection::InvalidToken),
            },
    {
        match claims {
            Some(c) => Ok(AuthUser { id: c.sub }),
            None => Err(AuthRejection::InvalidToken),
        }
    }
}

} // verus!
