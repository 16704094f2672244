use sharinflame::auth::{check_access_token, check_access_token_at, issue_tokens_at, AuthSession};
use sharinflame::response::{response, ApiResponse, AppError, FuncError};

#[test]
fn access_token_passes_until_expiry() {
    let t = issue_tokens_at(42, "sec", 7, "key", 1_000_000);
    let d = check_access_token_at(Some(&t.access), "key", 1_000_000).unwrap();
    assert_eq!(AuthSession::from_claims(&d), Some(AuthSession { user_id: 42, session_id: 7 }));
    assert!(check_access_token_at(Some(&t.access), "key", 1_003_600).is_ok());
    assert_eq!(
        check_access_token_at(Some(&t.access), "key", 1_003_601).unwrap_err(),
        AppError::Unauthorized("EXPIRED_TOKEN")
    );
}

#[test]
fn refresh_token_is_no_access_token() {
    let t = issue_tokens_at(-3, "sec", 8, "key", 1_000_000);
    assert_eq!(
        check_access_token_at(Some(&t.refresh), "key", 1_000_000).unwrap_err(),
        AppError::Unauthorized("INVALID_TOKEN")
    );
    let d = sharinflame::security::decode_token_at(&t.refresh, Some("refresh"), "key", 0).unwrap();
    assert_eq!(d.user_id, "-3");
    assert_eq!(d.expiration_timestamp, 1_000_000 + 2_592_000);
}

#[test]
fn missing_or_bad_header() {
    assert_eq!(check_access_token_at(None, "key", 0).unwrap_err(), AppError::Unauthorized("UNAUTHORIZED"));
    assert_eq!(check_access_token_at(Some("nope"), "key", 0).unwrap_err(), AppError::Unauthorized("INVALID_TOKEN"));
    assert_eq!(check_access_token(None, "key").unwrap_err(), AppError::Unauthorized("UNAUTHORIZED"));
}

#[test]
fn session_ids_must_be_numbers() {
    let d = sharinflame::security::DecodedToken {
        user_id: "x".into(),
        is_expired: false,
        expiration_timestamp: 0,
        secret: "s".into(),
        key_type: "access".into(),
        session_id: "1".into(),
    };
    assert_eq!(AuthSession::from_claims(&d), None);
}

#[test]
fn failures_map_to_errors() {
    let cases = [
        (FuncError::UserNotFound, AppError::NotFound("USER_NOT_FOUND"), 404),
        (FuncError::IncorrectPassword, AppError::Unauthorized("INCORRECT_PASSWORD"), 401),
        (FuncError::IncorrectData, AppError::BadRequest("INCORRECT_DATA"), 400),
        (FuncError::IncorrectParams, AppError::BadRequest("INCORRECT_PARAMS"), 400),
        (FuncError::UserAlreadyExists, AppError::Conflict("USER_ALREADY_EXISTS"), 409),
        (FuncError::UsernameExists, AppError::Conflict("USERNAME_EXISTS"), 409),
        (FuncError::InternalServerError, AppError::Internal("INTERNAL_SERVER_ERROR"), 500),
        (FuncError::Unauthorized, AppError::Unauthorized("UNAUTHORIZED"), 401),
        (FuncError::ExpiredToken, AppError::Unauthorized("EXPIRED_TOKEN"), 401),
        (FuncError::InvalidToken, AppError::Unauthorized("INVALID_TOKEN"), 401),
        (FuncError::PostDoesNotExist, AppError::NotFound("POST_DOES_NOT_EXIST"), 404),
        (FuncError::NoMorePosts, AppError::BadRequest("NO_MORE_POSTS"), 400),
    ];
    for (f, e, status) in cases {
        let got = AppError::from(f);
        assert_eq!(got, e);
        assert_eq!(got.status_and_message().0, status);
    }
    assert_eq!(AppError::Forbidden("F").status_and_message(), (403, "F"));
}

#[test]
fn response_envelopes() {
    let r = response(5u8, 200);
    assert!(r.data.success);
    assert_eq!(r.data.data, Some(5));
    assert_eq!(r.data.error, None);
    assert_eq!(r.status, 200);
    let e: ApiResponse<u8> = ApiResponse::err(None, "BATCH_FAILED", 400);
    assert!(!e.data.success);
    assert_eq!(e.data.error, Some("BATCH_FAILED"));
    assert_eq!(e.status, 400);
}
