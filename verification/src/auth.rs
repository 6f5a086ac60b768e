//! Authentication model: the claims carried by an access token, the token
//! lifetime rule, and the extraction of a bearer token from a request
//! header. Signing and verifying the token itself is the credential
//! collaborator's job and happens at the program's edge.

use vstd::prelude::*;
use vstd::string::*;

verus! {

use crate::payload::str_eq;

/// How long an issued token stays valid, in seconds.
pub const TOKEN_TTL_SECONDS: i64 = 86400;

/// The claims carried by an access token: the user it identifies and the
/// unix timestamp (seconds) at which it expires.
#[derive(Debug, Clone, Copy, PartialEq, Eq, Structural)]
pub struct Claims {
    pub sub: i64,
    pub exp: usize,
}

/// Token rules: which claims an issued token carries and when a token is
/// still acceptable.
pub struct JwtUtil;

impl JwtUtil {
    /// The claims for a token issued to `user_id` at time `now`: it expires
    /// one `TOKEN_TTL_SECONDS` later.
    pub fn token_claims(user_id: i64, now: i64) -> (c: Claims)
        requires
            0 <= now,
            now + TOKEN_TTL_SECONDS <= i64::MAX,
            now + TOKEN_TTL_SECONDS <= usize::MAX,
        ensures
            c.sub == user_id,
            c.exp as int == now + TOKEN_TTL_SECONDS,
    {
        Claims { sub: user_id, exp: (now + TOKEN_TTL_SECONDS) as usize }
    }

    /// Whether claims are expired at time `now`: the expiry timestamp has
    /// been reached.
    pub fn is_expired(claims: &Claims, now: i64) -> (r: bool)
        ensures
            r == (claims.exp as int <= now as int),
    {
        if now < 0 {
            false
        } else {
            let nu = now as u64;
            if nu > usize::MAX as u64 {
                true
            } else {
                claims.exp <= nu as usize
            }
        }
    }
}

/// The authentication middleware's configuration: the secret the tokens are
/// signed with.
pub struct Auth {
    pub jwt_secret: String,
}

impl Auth {
    /// Extracts the bearer token from the value of an `Authorization`
    /// header: the text after the `"Bearer "` prefix, or `None` when the
    /// header is absent or shaped otherwise.
    pub fn extract_bearer(header: Option<&str>) -> (r: Option<String>)
        ensures
            match r {
                Some(token) => {
                    &&& header matches Some(h)
                    &&& h@.len() >= 7
                    &&& h@.subrange(0, 7) == "Bearer "@
                    &&& token@ == h@.skip(7)
                },
                None => match header {
                    Some(h) => !(h@.len() >= 7 && h@.subrange(0, 7) == "Bearer "@),
                    None => true,
                },
            },
    {
        let h = match header {
            Some(h) => h,
            None => {
                return None;
            },
        };
        let n = h.unicode_len();
        if n < 7 {
            return None;
        }
        let prefix = h.substring_char(0, 7);
        if !str_eq(prefix, "Bearer ") {
            return None;
        }
        let token = h.substring_char(7, n);
        proof {
            assert(token@ =~= h@.skip(7));
        }
        Some(token.to_owned())
    }
}

} // verus!
