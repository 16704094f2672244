//! The service's responses: the JSON envelope, the errors a request can end
//! in, and the HTTP status and message of each.
use vstd::prelude::*;

verus! {

/// The body of every response: whether it succeeded, its data, its error.
#[derive(Debug, PartialEq)]
pub struct ApiResponseData<T> {
    pub success: bool,
    pub data: Option<T>,
    pub error: Option<&'static str>,
}

/// A response: its body and its HTTP status code.
#[derive(Debug, PartialEq)]
pub struct ApiResponse<T> {
    pub data: ApiResponseData<T>,
    pub status: u16,
}

impl<T> ApiResponse<T> {
    /// A successful response carrying `data`.
    pub fn ok(data: T, status: u16) -> (res: Self)
        ensures
            res.data.success,
            res.data.data == Some(data),
            res.data.error is None,
            res.status == status,
    {
        let data = ApiResponseData { success: true, data: Some(data), error: None };
        Self { data, status }
    }

    /// A failed response with the error code `error` and, optionally, data.
    pub fn err(data: Option<T>, error: &'static str, status: u16) -> (res: Self)
        ensures
            !res.data.success,
            res.data.data == data,
            res.data.error == Some(error),
            res.status == status,
    {
        let data = ApiResponseData { success: false, data, error: Some(error) };
        Self { data, status }
    }
}

/// A successful response carrying `data`.
pub fn response<T>(data: T, status: u16) -> (res: ApiResponse<T>)
    ensures
        res.data.success,
        res.data.data == Some(data),
        res.data.error is None,
        res.status == status,
{
    ApiResponse::<T>::ok(data, status)
}

/// An error that ends a request, with its error code.
#[derive(Debug, Clone, Copy, PartialEq, Eq)]
pub enum AppError {
    NotFound(&'static str),
    Unauthorized(&'static str),
    BadRequest(&'static str),
    Internal(&'static str),
    Forbidden(&'static str),
    Conflict(&'static str),
}

/// The HTTP status and error code of an error.
pub open spec fn status_and_message_spec(e: AppError) -> (u16, &'static str) {
    match e {
        AppError::NotFound(m) => (404, m),
        AppError::Unauthorized(m) => (401, m),
        AppError::BadRequest(m) => (400, m),
        AppError::Internal(m) => (500, m),
        AppError::Forbidden(m) => (403, m),
        AppError::Conflict(m) => (409, m),
    }
}

impl AppError {
    /// The HTTP status and error code that answer this error.
    pub fn status_and_message(&self) -> (res: (u16, &'static str))
        ensures
            res == status_and_message_spec(*self),
    {
        match self {
            AppError::NotFound(msg) => (404, *msg),
            AppError::Unauthorized(msg) => (401, *msg),
            AppError::BadRequest(msg) => (400, *msg),
            AppError::Internal(msg) => (500, *msg),
            AppError::Forbidden(msg) => (403, *msg),
            AppError::Conflict(msg) => (409, *msg),
        }
    }
}

/// A failure of the service's logic.
#[derive(Debug, Clone, Copy, PartialEq, Eq)]
pub enum FuncError {
    UserNotFound,
    IncorrectPassword,
    IncorrectData,
    IncorrectParams,
    UserAlreadyExists,
    UsernameExists,
    InternalServerError,
    Unauthorized,
    ExpiredToken,
    InvalidToken,
    PostDoesNotExist,
    NoMorePosts,
    CommentDoesNotExist,
    ContextNotFound,
    Forbidden,
    NotImplemented,
}

/// The error that answers a failure.
pub open spec fn app_error_of(err: FuncError) -> AppError {
    match err {
        FuncError::UserNotFound => AppError::NotFound("USER_NOT_FOUND"),
        FuncError::IncorrectPassword => AppError::Unauthorized("INCORRECT_PASSWORD"),
        FuncError::IncorrectData => AppError::BadRequest("INCORRECT_DATA"),
        FuncError::UserAlreadyExists => AppError::Conflict("USER_ALREADY_EXISTS"),
        FuncError::UsernameExists => AppError::Conflict("USERNAME_EXISTS"),
        FuncError::InternalServerError => AppError::Internal("INTERNAL_SERVER_ERROR"),
        FuncError::Unauthorized => AppError::Unauthorized("UNAUTHORIZED"),
        FuncError::ExpiredToken => AppError::Unauthorized("EXPIRED_TOKEN"),
        FuncError::InvalidToken => AppError::Unauthorized("INVALID_TOKEN"),
        FuncError::PostDoesNotExist => AppError::NotFound("POST_DOES_NOT_EXIST"),
        FuncError::IncorrectParams => AppError::BadRequest("INCORRECT_PARAMS"),
        FuncError::NoMorePosts => AppError::BadRequest("NO_MORE_POSTS"),
        FuncError::CommentDoesNotExist => AppError::NotFound("COMMENT_DOES_NOT_EXIST"),
        FuncError::ContextNotFound => AppError::NotFound("CONTEXT_NOT_FOUND"),
        FuncError::Forbidden => AppError::Forbidden("FORBIDDEN"),
        FuncError::NotImplemented => AppError::Internal("NOT_IMPLEMENTED"),
    }
}

impl From<FuncError> for AppError {
    fn from(err: FuncError) -> (res: Self) {
        match err {
            FuncError::UserNotFound => AppError::NotFound("USER_NOT_FOUND"),
            FuncError::IncorrectPassword => AppError::Unauthorized("INCORRECT_PASSWORD"),
            FuncError::IncorrectData => AppError::BadRequest("INCORRECT_DATA"),
            FuncError::UserAlreadyExists => AppError::Conflict("USER_ALREADY_EXISTS"),
            FuncError::UsernameExists => AppError::Conflict("USERNAME_EXISTS"),
            FuncError::InternalServerError => AppError::Internal("INTERNAL_SERVER_ERROR"),
            FuncError::Unauthorized => AppError::Unauthorized("UNAUTHORIZED"),
            FuncError::ExpiredToken => AppError::Unauthorized("EXPIRED_TOKEN"),
            FuncError::InvalidToken => AppError::Unauthorized("INVALID_TOKEN"),
            FuncError::PostDoesNotExist => AppError::NotFound("POST_DOES_NOT_EXIST"),
            FuncError::IncorrectParams => AppError::BadRequest("INCORRECT_PARAMS"),
            FuncError::NoMorePosts => AppError::BadRequest("NO_MORE_POSTS"),
            FuncError::CommentDoesNotExist => AppError::NotFound("COMMENT_DOES_NOT_EXIST"),
            FuncError::ContextNotFound => AppError::NotFound("CONTEXT_NOT_FOUND"),
            FuncError::Forbidden => AppError::Forbidden("FORBIDDEN"),
            FuncError::NotImplemented => AppError::Internal("NOT_IMPLEMENTED"),
        }
    }
}

impl vstd::std_specs::convert::FromSpecImpl<FuncError> for AppError {
    open spec fn obeys_from_spec() -> bool {
        true
    }

    open spec fn from_spec(v: FuncError) -> AppError {
        app_error_of(v)
    }
}

/// Every failure is answered with a client or server error status (4xx or
/// 5xx), never with a success.
pub proof fn lemma_failures_are_errors(err: FuncError)
    ensures
        400 <= status_and_message_spec(app_error_of(err)).0 <= 599,
{
}

} // verus!
