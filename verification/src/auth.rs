//! Sessions: the pair of tokens a login issues, and the check of the access
//! token that authenticates a request.
use vstd::prelude::*;
use vstd::utf8::encode_utf8;

use crate::encoding::unix_time_ms;
use crate::response::AppError;
use crate::security::{
    b64_fits, decode_token_at, opt_str_view, decode_token_spec, generate_token_at, issued_claims,
    token_lifetime, token_spec, token_text, DecodedToken, TokenClaims, LONG_TERM_SECONDS,
};
use crate::text::{
    chars_of, i64_to_decimal, int_to_decimal, lemma_decimal_digits, lemma_parse_i64_decimal,
    parse_i64, parse_i64_spec,
};

verus! {

/// The key type of access tokens.
pub open spec fn access_type() -> Seq<char> {
    "access"@
}

/// The key type of refresh tokens.
pub open spec fn refresh_type() -> Seq<char> {
    "refresh"@
}

/// The two tokens of a session.
#[derive(Debug, Clone, PartialEq)]
pub struct Tokens {
    pub refresh: String,
    pub access: String,
}

/// The text of a session token fits the base64 encoder.
pub open spec fn session_token_fits(
    user_id: i64,
    secret: Seq<char>,
    session_id: i64,
    key_type: Seq<char>,
    now: nat,
    long_term: bool,
) -> bool {
    b64_fits(
        encode_utf8(
            token_text(
                int_to_decimal(user_id as int),
                now + token_lifetime(long_term),
                secret,
                int_to_decimal(session_id as int),
                key_type,
            ),
        ).len(),
    )
}

/// What the access check gives for the `Authorization` header `header` at
/// `now`: the claims of an unexpired access token, or the error that answers
/// the request.
pub open spec fn access_check_spec(header: Option<Seq<char>>, key: Seq<char>, now: nat) -> Result<
    TokenClaims,
    AppError,
> {
    match header {
        None => Err(AppError::Unauthorized("UNAUTHORIZED")),
        Some(t) => match decode_token_spec(t, Some(access_type()), key, now) {
            Err(e) => Err(AppError::Unauthorized(e)),
            Ok(c) => if c.is_expired {
                Err(AppError::Unauthorized("EXPIRED_TOKEN"))
            } else {
                Ok(c)
            },
        },
    }
}

/// The view of an access check's result.
pub open spec fn access_result_view(r: Result<DecodedToken, AppError>) -> Result<
    TokenClaims,
    AppError,
> {
    match r {
        Ok(d) => Ok(d@),
        Err(e) => Err(e),
    }
}

/// Issues the refresh token (long term) and the access token (short term)
/// of session `session_id` for `user_id` at `now` (Unix seconds). The access
/// token passes the access check until it expires an hour later; the refresh
/// token never passes it.
pub fn issue_tokens_at(
    user_id: i64,
    secret: &str,
    session_id: i64,
    signature_key: &str,
    now: u64,
) -> (res: Tokens)
    requires
        now + LONG_TERM_SECONDS <= u64::MAX,
        session_token_fits(user_id, secret@, session_id, refresh_type(), now as nat, true),
        session_token_fits(user_id, secret@, session_id, access_type(), now as nat, false),
    ensures
        res.refresh@ == token_spec(
            int_to_decimal(user_id as int),
            refresh_type(),
            true,
            secret@,
            int_to_decimal(session_id as int),
            signature_key@,
            now as nat,
        ),
        res.access@ == token_spec(
            int_to_decimal(user_id as int),
            access_type(),
            false,
            secret@,
            int_to_decimal(session_id as int),
            signature_key@,
            now as nat,
        ),
        crate::text::lacks(secret@, '\0') ==> forall|t: nat|
            #[trigger] access_check_spec(Some(res.access@), signature_key@, t) == if t > now
                + token_lifetime(false) {
                Err::<TokenClaims, AppError>(AppError::Unauthorized("EXPIRED_TOKEN"))
            } else {
                Ok(
                    issued_claims(
                        int_to_decimal(user_id as int),
                        access_type(),
                        false,
                        secret@,
                        int_to_decimal(session_id as int),
                        now as nat,
                        t,
                    ),
                )
            },
        crate::text::lacks(secret@, '\0') ==> forall|t: nat|
            #[trigger] access_check_spec(Some(res.refresh@), signature_key@, t) == Err::<
                TokenClaims,
                AppError,
            >(AppError::Unauthorized("INVALID_TOKEN")),
{
    let uid = i64_to_decimal(user_id);
    let sid = i64_to_decimal(session_id);
    let refresh = generate_token_at(uid.as_str(), "refresh", true, secret, sid.as_str(), signature_key, now);
    let access = generate_token_at(uid.as_str(), "access", false, secret, sid.as_str(), signature_key, now);
    proof {
        reveal_strlit("access");
        reveal_strlit("refresh");
        lemma_decimal_lacks_nul(user_id);
        lemma_decimal_lacks_nul(session_id);
        assert(access_type() != refresh_type()) by {
            assert(access_type().len() != refresh_type().len());
        }
        assert(crate::text::lacks(access_type(), '\0'));
        assert(crate::text::lacks(refresh_type(), '\0'));
    }
    Tokens { refresh, access }
}

proof fn lemma_decimal_lacks_nul(n: i64)
    ensures
        crate::text::lacks(int_to_decimal(n as int), '\0'),
{
    let m: nat = if n < 0 {
        (-(n as int)) as nat
    } else {
        n as nat
    };
    lemma_decimal_digits(m);
    let d = int_to_decimal(n as int);
    if n < 0 {
        assert forall|i: int| 0 <= i < d.len() implies #[trigger] d[i] != '\0' by {
            if i > 0 {
                assert(d[i] == nat_to_decimal_at(m, i - 1));
            }
        }
    }
}

spec fn nat_to_decimal_at(m: nat, i: int) -> char {
    crate::text::nat_to_decimal(m)[i]
}

/// Checks the `Authorization` header of a request at `now` (Unix seconds):
/// it must hold an access token, signed with `signature_key`, unexpired.
pub fn check_access_token_at(header: Option<&str>, signature_key: &str, now: u64) -> (res: Result<
    DecodedToken,
    AppError,
>)
    ensures
        access_result_view(res) == access_check_spec(
            opt_str_view(header),
            signature_key@,
            now as nat,
        ),
{
    let token = match header {
        Some(t) => t,
        None => {
            return Err(AppError::Unauthorized("UNAUTHORIZED"));
        },
    };
    proof {
        reveal_strlit("access");
    }
    let decoded = match decode_token_at(token, Some("access"), signature_key, now) {
        Ok(d) => d,
        Err(e) => {
            return Err(AppError::Unauthorized(e));
        },
    };
    if decoded.is_expired {
        return Err(AppError::Unauthorized("EXPIRED_TOKEN"));
    }
    Ok(decoded)
}

/// Checks the `Authorization` header of a request at the current time (on
/// the system clock, 0 where it reads before the epoch).
pub fn check_access_token(header: Option<&str>, signature_key: &str) -> (res: Result<
    DecodedToken,
    AppError,
>)
    ensures
        exists|now: nat|
            access_result_view(res) == #[trigger] access_check_spec(
                opt_str_view(header),
                signature_key@,
                now,
            ),
{
    let now = match unix_time_ms() {
        Some(ms) => ms / 1000,
        None => 0,
    };
    check_access_token_at(header, signature_key, now)
}

/// The session a request is authenticated as.
#[derive(Debug, Clone, Copy, PartialEq, Eq)]
pub struct AuthSession {
    pub user_id: i64,
    pub session_id: i64,
}

impl AuthSession {
    /// The session of a checked token: its user and session ids read as
    /// numbers; `None` where one does not read.
    pub fn from_claims(decoded: &DecodedToken) -> (res: Option<AuthSession>)
        ensures
            match res {
                Some(s) => parse_i64_spec(decoded.user_id@) == Some(s.user_id) && parse_i64_spec(
                    decoded.session_id@,
                ) == Some(s.session_id),
                None => parse_i64_spec(decoded.user_id@) is None || parse_i64_spec(
                    decoded.session_id@,
                ) is None,
            },
    {
        let u = chars_of(decoded.user_id.as_str());
        let s = chars_of(decoded.session_id.as_str());
        match (parse_i64(u.as_slice()), parse_i64(s.as_slice())) {
            (Some(user_id), Some(session_id)) => Some(AuthSession { user_id, session_id }),
            _ => None,
        }
    }
}

/// The session of a token issued for a user and session is that user and
/// session.
pub proof fn lemma_session_of_issued_claims(
    user_id: i64,
    session_id: i64,
    long_term: bool,
    key_type: Seq<char>,
    secret: Seq<char>,
    now: nat,
    t: nat,
)
    ensures
        parse_i64_spec(
            issued_claims(
                int_to_decimal(user_id as int),
                key_type,
                long_term,
                secret,
                int_to_decimal(session_id as int),
                now,
                t,
            ).user_id,
        ) == Some(user_id),
        parse_i64_spec(
            issued_claims(
                int_to_decimal(user_id as int),
                key_type,
                long_term,
                secret,
                int_to_decimal(session_id as int),
                now,
                t,
            ).session_id,
        ) == Some(session_id),
{
    lemma_parse_i64_decimal(user_id);
    lemma_parse_i64_decimal(session_id);
}

} // verus!
