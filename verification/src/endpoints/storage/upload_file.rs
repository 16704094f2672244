//! Uploading a file: where it goes, and who may upload it.
use vstd::prelude::*;
use vstd::utf8::encode_utf8;

use crate::entities::FileContext;
use crate::response::FuncError;
use crate::text::{i64_to_decimal, int_to_decimal, push_char, str_eq};
use crate::validate::is_either;

verus! {

/// A type of upload: `banner`, `avatar`, or `context` (into an existing
/// file context).
pub open spec fn valid_upload_type(t: Seq<char>) -> bool {
    t == "banner"@ || t == "avatar"@ || t == "context"@
}

/// Checks an upload type; the error code is `wrong_type`.
pub fn validate_type(kind: &str) -> (res: Result<(), &'static str>)
    ensures
        res is Ok <==> valid_upload_type(kind@),
        res matches Err(e) ==> e == "wrong_type",
{
    if !is_either(kind, "banner", "avatar") && !str_eq(kind, "context") {
        return Err("wrong_type");
    }
    Ok(())
}

/// The request to upload a file.
pub struct Payload {
    /// The file context to upload into, for the `context` type.
    pub context_id: Option<i64>,
    pub kind: String,
    /// The file's name, 1 to 92 characters.
    pub file_name: String,
}

impl Payload {
    /// The request is valid.
    pub open spec fn valid(self) -> bool {
        &&& valid_upload_type(self.kind@)
        &&& 1 <= self.file_name@.len() <= 92
    }

    /// Whether the request is valid.
    pub fn validate(&self) -> (res: bool)
        ensures
            res == self.valid(),
    {
        let n = crate::text::chars_of(self.file_name.as_str()).len();
        validate_type(self.kind.as_str()).is_ok() && 1 <= n && n <= 92
    }
}

/// A byte that the upload path encodes: a control character (0x00 to 0x1F
/// and 0x7F), `/`, or a byte outside ASCII.
pub open spec fn encoded_byte(b: u8) -> bool {
    b < 0x20 || b == 0x7f || b == 0x2f || b >= 0x80
}

/// The upper-case hex digit of `v < 16`.
pub open spec fn upper_hex_digit(v: nat) -> char {
    if v < 10 {
        ((v + 48) as u8) as char
    } else {
        ((v + 55) as u8) as char
    }
}

/// The percent-encoding of the bytes `bytes`: each encoded byte as `%XX`
/// in upper-case hex, the others as their character.
pub open spec fn percent_encode_spec(bytes: Seq<u8>) -> Seq<char>
    decreases bytes.len(),
{
    if bytes.len() == 0 {
        Seq::<char>::empty()
    } else {
        let b = bytes.last();
        percent_encode_spec(bytes.drop_last()) + if encoded_byte(b) {
            seq!['%', upper_hex_digit((b / 16) as nat), upper_hex_digit((b % 16) as nat)]
        } else {
            seq![b as char]
        }
    }
}

/// The percent-encoding of one byte (percent-encoding's
/// `percent_encode_byte`): `%` and the byte's two upper-case hex digits, as
/// the crate's table and tests give it.
#[verifier::external_body]
fn percent_encode_byte(b: u8) -> (res: &'static str)
    ensures
        res@ == seq!['%', upper_hex_digit((b / 16) as nat), upper_hex_digit((b % 16) as nat)],
{
    percent_encoding::percent_encode_byte(b)
}

/// `s` percent-encoded as `utf8_percent_encode` with the control characters
/// and `/` encodes it: the bytes of that set and the bytes outside ASCII
/// become `%XX`.
pub fn percent_encode_path(s: &str) -> (res: String)
    ensures
        res@ == percent_encode_spec(encode_utf8(s@)),
{
    let bytes = s.as_bytes();
    let mut out = String::new();
    for i in 0..bytes.len()
        invariant
            bytes@ == encode_utf8(s@),
            out@ == percent_encode_spec(bytes@.take(i as int)),
    {
        let b = bytes[i];
        assert(bytes@.take(i + 1).drop_last() =~= bytes@.take(i as int));
        if b < 0x20 || b == 0x7f || b == 0x2f || b >= 0x80 {
            out.append(percent_encode_byte(b));
        } else {
            push_char(&mut out, b as char);
        }
        assert(out@ =~= percent_encode_spec(bytes@.take(i + 1)));
    }
    assert(bytes@.take(bytes@.len() as int) =~= bytes@);
    out
}

/// Where a file uploaded into a context goes:
/// `private/<context id>/<percent-encoded name>`.
pub open spec fn private_file_name_spec(context_id: i64, file_name: Seq<char>) -> Seq<char> {
    "private/"@ + int_to_decimal(context_id as int) + seq!['/'] + percent_encode_spec(
        encode_utf8(file_name),
    )
}

/// Where a file uploaded into a context goes.
pub fn private_file_name(context_id: i64, file_name: &str) -> (res: String)
    ensures
        res@ == private_file_name_spec(context_id, file_name@),
{
    let mut out = String::from_str("private/");
    let id = i64_to_decimal(context_id);
    out.append(id.as_str());
    push_char(&mut out, '/');
    let enc = percent_encode_path(file_name);
    out.append(enc.as_str());
    out
}

/// Where an avatar or banner goes:
/// `public/<avatars|banners>/<user id>/<context id>.webp`.
pub open spec fn public_file_name_spec(kind: Seq<char>, user_id: i64, context_id: i64) -> Seq<char> {
    "public/"@ + (if kind == "avatar"@ {
        "avatars"@
    } else {
        "banners"@
    }) + seq!['/'] + int_to_decimal(user_id as int) + seq!['/'] + int_to_decimal(context_id as int)
        + ".webp"@
}

/// Where an avatar or banner goes.
pub fn public_file_name(kind: &str, user_id: i64, context_id: i64) -> (res: String)
    ensures
        res@ == public_file_name_spec(kind@, user_id, context_id),
{
    let mut out = String::from_str("public/");
    if str_eq(kind, "avatar") {
        out.append("avatars");
    } else {
        out.append("banners");
    }
    push_char(&mut out, '/');
    let u = i64_to_decimal(user_id);
    out.append(u.as_str());
    push_char(&mut out, '/');
    let c = i64_to_decimal(context_id);
    out.append(c.as_str());
    out.append(".webp");
    out
}

/// Seconds after its creation that a context takes uploads.
pub const UPLOAD_WINDOW_SECONDS: u64 = 3600;

/// A user may upload into a context that they own and that was created
/// (Unix seconds `created_at`) no more than an hour before `now`.
pub open spec fn may_upload_spec(
    context_user_id: i64,
    session_user_id: i64,
    created_at: i64,
    now: u64,
) -> bool {
    context_user_id == session_user_id && !((now - UPLOAD_WINDOW_SECONDS) as u64 > (
    created_at as u64))
}

/// Whether a user may upload into a context.
pub fn may_upload_to_context(
    context_user_id: i64,
    session_user_id: i64,
    created_at: i64,
    now: u64,
) -> (res: bool)
    requires
        context_user_id != session_user_id || now >= UPLOAD_WINDOW_SECONDS,
    ensures
        res == may_upload_spec(context_user_id, session_user_id, created_at, now),
{
    !(context_user_id != session_user_id || now - UPLOAD_WINDOW_SECONDS > created_at as u64)
}

/// Where an upload goes.
#[derive(Debug, Clone, Copy, PartialEq, Eq)]
pub enum UploadTarget {
    /// Into the existing file context with this id.
    Context(i64),
    /// Into a new file context of its own (an avatar or a banner).
    NewContext,
}

/// Where an upload of type `kind` goes: an upload of type `context` goes
/// into the context it names, and fails with `IncorrectData` where it names
/// none; any other type gets a new context.
pub fn upload_target(kind: &str, context_id: Option<i64>) -> (res: Result<UploadTarget, FuncError>)
    ensures
        kind@ == "context"@ ==> res == match context_id {
            Some(c) => Ok::<UploadTarget, FuncError>(UploadTarget::Context(c)),
            None => Err(FuncError::IncorrectData),
        },
        kind@ != "context"@ ==> res == Ok::<UploadTarget, FuncError>(UploadTarget::NewContext),
{
    if str_eq(kind, "context") {
        match context_id {
            Some(c) => Ok(UploadTarget::Context(c)),
            None => Err(FuncError::IncorrectData),
        }
    } else {
        Ok(UploadTarget::NewContext)
    }
}

/// Whether a user may upload, at `now` (Unix seconds), into the context
/// that was looked up: `ContextNotFound` where there is none, `Forbidden`
/// where the user may not upload into it (`may_upload_spec`).
pub fn context_access(context: &Option<FileContext>, session_user_id: i64, now: u64) -> (res: Result<
    (),
    FuncError,
>)
    requires
        context matches Some(c) ==> c.user_id != session_user_id || now >= UPLOAD_WINDOW_SECONDS,
    ensures
        match context {
            None => res == Err::<(), FuncError>(FuncError::ContextNotFound),
            Some(c) => if may_upload_spec(c.user_id, session_user_id, c.created_at, now) {
                res is Ok
            } else {
                res == Err::<(), FuncError>(FuncError::Forbidden)
            },
        },
{
    match context {
        None => Err(FuncError::ContextNotFound),
        Some(c) => {
            if may_upload_to_context(c.user_id, session_user_id, c.created_at, now) {
                Ok(())
            } else {
                Err(FuncError::Forbidden)
            }
        },
    }
}

} // verus!
