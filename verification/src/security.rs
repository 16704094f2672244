//! Passwords (PBKDF2 with a random salt, stored as hex) and signed session
//! tokens (`LV <payload>.<signature>`, where the payload is the base64 of
//! five NUL-separated fields and the signature its HMAC-SHA256 in base64).
use vstd::prelude::*;
use vstd::utf8::*;

use base64::Engine;

use crate::encoding::{
    hex_decode, hex_decode_spec, hex_encode, hex_encode_spec, hex_pair, hmac_sha256, is_b64_char,
    lemma_hex_roundtrip, pbkdf2_sha256, random_bytes, spec_b64_decode, spec_b64_encode,
    spec_hmac_sha256, spec_pbkdf2_sha256, string_from_utf8, unix_time_ms,
};
use crate::text::{
    chars_eq, chars_of, lacks, last_index_of, last_index_of_char, lemma_decimal_digits,
    lemma_last_index_concat, lemma_parse_u64_decimal, lemma_split_concat, lemma_split_no_sep,
    nat_to_decimal, parse_u64, parse_u64_spec, push_char, push_decimal, split_chars, split_spec,
    starts_with_spec, str_eq, string_from_chars, views,
};

verus! {

broadcast use {vstd::utf8::encode_utf8_decode_utf8, vstd::utf8::encode_utf8_valid_utf8};

/// The base64 encoder's buffer size for `n` bytes fits in a `usize`.
pub open spec fn b64_fits(n: nat) -> bool {
    4 * ((n + 2) / 3) <= usize::MAX
}

/// Encodes `data` in standard base64 with padding (base64's `STANDARD`
/// engine, `Engine::encode`). The contract claims what base64's
/// documentation gives: the output is `4 * ceil(n / 3)` characters of the
/// standard alphabet and `=`, and the same engine decodes it back to `data`.
/// The buffer size overflows (and the call panics) only for inputs that
/// `requires` leaves out.
#[verifier::external_body]
pub fn b64_encode(data: &[u8]) -> (res: String)
    requires
        b64_fits(data@.len()),
    ensures
        res@ == spec_b64_encode(data@),
        res@.len() == 4 * ((data@.len() + 2) / 3),
        forall|i: int| 0 <= i < res@.len() ==> is_b64_char(#[trigger] res@[i]),
        spec_b64_decode(res@) == Some(data@),
{
    base64::engine::general_purpose::STANDARD.encode(data)
}

/// Decodes the standard base64 text `s` (base64's `STANDARD` engine,
/// `Engine::decode` on the bytes of `s`). The contract ties the outcome to
/// the name `spec_b64_decode`; which texts it rejects is not stated.
#[verifier::external_body]
pub fn b64_decode(s: &str) -> (res: Result<Vec<u8>, base64::DecodeError>)
    ensures
        res is Ok <==> spec_b64_decode(s@) is Some,
        res matches Ok(v) ==> spec_b64_decode(s@) == Some(v@),
{
    base64::engine::general_purpose::STANDARD.decode(s)
}

// ---------------------------------------------------------------------------
// Passwords
// ---------------------------------------------------------------------------

/// Rounds of PBKDF2 for passwords.
pub const PASSWORD_ROUNDS: u32 = 10000;

/// Bytes in a password hash.
pub const PASSWORD_HASH_LEN: usize = 32;

/// Bytes in a password salt.
pub const SALT_LEN: usize = 16;

/// The hash of `password` (its UTF-8 bytes) with `salt`.
pub open spec fn password_hash_spec(password: Seq<char>, salt: Seq<u8>) -> Seq<u8> {
    spec_pbkdf2_sha256(encode_utf8(password), salt, PASSWORD_ROUNDS, PASSWORD_HASH_LEN as nat)
}

/// The stored form of a password: hex of the salt, `$`, hex of the hash.
pub open spec fn stored_password_spec(password: Seq<char>, salt: Seq<u8>) -> Seq<char> {
    hex_encode_spec(salt) + seq!['$'] + hex_encode_spec(password_hash_spec(password, salt))
}

/// A stored password that `check_password` can read: one that does not
/// split into two `$`-separated fields, or one whose two fields are hex.
pub open spec fn stored_password_readable(stored: Seq<char>) -> bool {
    let parts = split_spec(stored, '$');
    parts.len() == 2 ==> (hex_decode_spec(parts[0]) is Some && hex_decode_spec(parts[1]) is Some)
}

/// Whether `password` matches the stored form `stored`.
pub open spec fn check_password_spec(stored: Seq<char>, password: Seq<char>) -> bool {
    let parts = split_spec(stored, '$');
    parts.len() == 2 && password_hash_spec(password, hex_decode_spec(parts[0]).unwrap())
        == hex_decode_spec(parts[1]).unwrap()
}

/// A random key of `length` bytes, in base64; `None` where the operating
/// system's random source fails.
pub fn generate_key(length: usize) -> (res: Option<String>)
    requires
        b64_fits(length as nat),
    ensures
        res matches Some(key) ==> exists|bytes: Seq<u8>|
            bytes.len() == length && key@ == spec_b64_encode(bytes),
{
    match random_bytes(length) {
        Some(bytes) => Some(b64_encode(bytes.as_slice())),
        None => None,
    }
}

/// A random salt; `None` where the operating system's random source fails.
pub fn generate_salt() -> (res: Option<[u8; 16]>)
    ensures
        res matches Some(salt) ==> salt@.len() == SALT_LEN,
{
    let bytes = match random_bytes(SALT_LEN) {
        Some(bytes) => bytes,
        None => {
            return None;
        },
    };
    let mut salt = [0u8; 16];
    for i in 0..16
        invariant
            bytes@.len() == 16,
            salt@.len() == 16,
    {
        salt[i] = bytes[i];
    }
    Some(salt)
}

/// The PBKDF2-HMAC-SHA256 hash of `password` with `salt`.
pub fn hash_password(password: &str, salt: &[u8]) -> (res: Vec<u8>)
    ensures
        res@ == password_hash_spec(password@, salt@),
        res@.len() == PASSWORD_HASH_LEN,
{
    pbkdf2_sha256(password.as_bytes(), salt, PASSWORD_ROUNDS, PASSWORD_HASH_LEN)
}

/// The stored form of `password` with the given salt.
pub fn store_password_with_salt(password: &str, salt: &[u8]) -> (res: String)
    ensures
        res@ == stored_password_spec(password@, salt@),
{
    let hashed = hash_password(password, salt);
    let mut out = hex_encode(salt);
    push_char(&mut out, '$');
    let h = hex_encode(hashed.as_slice());
    out.append(h.as_str());
    out
}

/// The stored form of `password`, with a fresh random salt; `None` where the
/// operating system's random source fails.
pub fn store_password(password: &str) -> (res: Option<String>)
    ensures
        res matches Some(stored) ==> exists|salt: Seq<u8>|
            salt.len() == SALT_LEN && stored@ == stored_password_spec(password@, salt),
{
    match generate_salt() {
        Some(salt) => Some(store_password_with_salt(password, salt.as_slice())),
        None => None,
    }
}

/// Whether `stored` is a stored password that `check_password` can read.
pub fn is_stored_password_readable(stored: &str) -> (res: bool)
    ensures
        res == stored_password_readable(stored@),
{
    let cs = chars_of(stored);
    let parts = split_chars(cs.as_slice(), '$');
    if parts.len() != 2 {
        return true;
    }
    let a = string_from_chars(parts[0].as_slice());
    let b = string_from_chars(parts[1].as_slice());
    hex_decode(a.as_str()).is_some() && hex_decode(b.as_str()).is_some()
}

/// Whether two byte sequences are equal.
pub fn bytes_eq(a: &[u8], b: &[u8]) -> (res: bool)
    ensures
        res == (a@ == b@),
{
    if a.len() != b.len() {
        return false;
    }
    for i in 0..a.len()
        invariant
            a@.len() == b@.len(),
            forall|j: int| 0 <= j < i ==> a@[j] == b@[j],
    {
        if a[i] != b[i] {
            return false;
        }
    }
    assert(a@ =~= b@);
    true
}

/// Whether `password` matches the stored form `stored`.
pub fn check_password(stored: &str, password: &str) -> (res: bool)
    requires
        stored_password_readable(stored@),
    ensures
        res == check_password_spec(stored@, password@),
{
    let cs = chars_of(stored);
    let parts = split_chars(cs.as_slice(), '$');
    if parts.len() != 2 {
        return false;
    }
    let a = string_from_chars(parts[0].as_slice());
    let b = string_from_chars(parts[1].as_slice());
    let salt = match hex_decode(a.as_str()) {
        Some(v) => v,
        None => {
            return false;
        },
    };
    let stored_hash = match hex_decode(b.as_str()) {
        Some(v) => v,
        None => {
            return false;
        },
    };
    let new_hash = hash_password(password, salt.as_slice());
    bytes_eq(new_hash.as_slice(), stored_hash.as_slice())
}

proof fn lemma_hex_lacks_dollar(data: Seq<u8>)
    ensures
        lacks(hex_encode_spec(data), '$'),
    decreases data.len(),
{
    if data.len() > 0 {
        lemma_hex_lacks_dollar(data.drop_last());
        let b = data.last();
        assert(hex_encode_spec(data) == hex_encode_spec(data.drop_last()) + hex_pair(b));
        assert forall|i: int| 0 <= i < hex_encode_spec(data).len() implies #[trigger] hex_encode_spec(
            data,
        )[i] != '$' by {
            let p = hex_encode_spec(data.drop_last());
            if i >= p.len() {
                assert(hex_encode_spec(data)[i] == hex_pair(b)[i - p.len()]);
            }
        }
    }
}

/// A password checks against its own stored form, whatever the salt.
pub proof fn lemma_password_roundtrip(password: Seq<char>, salt: Seq<u8>)
    ensures
        stored_password_readable(stored_password_spec(password, salt)),
        check_password_spec(stored_password_spec(password, salt), password),
{
    let hs = hex_encode_spec(salt);
    let hh = hex_encode_spec(password_hash_spec(password, salt));
    lemma_hex_lacks_dollar(salt);
    lemma_hex_lacks_dollar(password_hash_spec(password, salt));
    lemma_split_concat(hs, hh, '$');
    lemma_split_no_sep(hs, '$');
    lemma_split_no_sep(hh, '$');
    lemma_hex_roundtrip(salt);
    lemma_hex_roundtrip(password_hash_spec(password, salt));
    assert(split_spec(stored_password_spec(password, salt), '$') =~= seq![hs, hh]);
}

// ---------------------------------------------------------------------------
// Session tokens
// ---------------------------------------------------------------------------

/// Seconds a long-term token lives: 30 days.
pub const LONG_TERM_SECONDS: u64 = 2592000;

/// Seconds a short-term token lives: one hour.
pub const SHORT_TERM_SECONDS: u64 = 3600;

/// Seconds a token lives.
pub open spec fn token_lifetime(long_term: bool) -> nat {
    if long_term {
        LONG_TERM_SECONDS as nat
    } else {
        SHORT_TERM_SECONDS as nat
    }
}

/// The five fields of a token, separated by NUL characters.
pub open spec fn token_text(
    user_id: Seq<char>,
    expiration: nat,
    secret: Seq<char>,
    session_id: Seq<char>,
    key_type: Seq<char>,
) -> Seq<char> {
    user_id + seq!['\0'] + nat_to_decimal(expiration) + seq!['\0'] + secret + seq!['\0'] + session_id
        + seq!['\0'] + key_type
}

/// The signature of a token payload: HMAC-SHA256 under `key`, in base64.
pub open spec fn token_signature(payload: Seq<char>, key: Seq<char>) -> Seq<char> {
    spec_b64_encode(spec_hmac_sha256(encode_utf8(key), encode_utf8(payload)))
}

/// The token issued at `now` (Unix seconds).
pub open spec fn token_spec(
    user_id: Seq<char>,
    key_type: Seq<char>,
    long_term: bool,
    secret: Seq<char>,
    session_id: Seq<char>,
    signature_key: Seq<char>,
    now: nat,
) -> Seq<char> {
    let payload = spec_b64_encode(
        encode_utf8(token_text(user_id, now + token_lifetime(long_term), secret, session_id, key_type)),
    );
    seq!['L', 'V', ' '] + payload + seq!['.'] + token_signature(payload, signature_key)
}

/// Every token text, whatever its expiration, fits the base64 encoder.
pub open spec fn token_fields_fit(
    user_id: Seq<char>,
    secret: Seq<char>,
    session_id: Seq<char>,
    key_type: Seq<char>,
) -> bool {
    forall|exp: nat|
        exp <= u64::MAX ==> b64_fits(
            #[trigger] encode_utf8(token_text(user_id, exp, secret, session_id, key_type)).len(),
        )
}

/// The fields a decoded token holds.
pub struct TokenClaims {
    pub user_id: Seq<char>,
    pub is_expired: bool,
    pub expiration_timestamp: u64,
    pub secret: Seq<char>,
    pub key_type: Seq<char>,
    pub session_id: Seq<char>,
}

/// The fields of a token that decoded.
#[derive(Debug, Clone, PartialEq)]
pub struct DecodedToken {
    pub user_id: String,
    pub is_expired: bool,
    pub expiration_timestamp: u64,
    pub secret: String,
    pub key_type: String,
    pub session_id: String,
}

impl View for DecodedToken {
    type V = TokenClaims;

    open spec fn view(&self) -> TokenClaims {
        TokenClaims {
            user_id: self.user_id@,
            is_expired: self.is_expired,
            expiration_timestamp: self.expiration_timestamp,
            secret: self.secret@,
            key_type: self.key_type@,
            session_id: self.session_id@,
        }
    }
}

/// The view of an optional string.
pub open spec fn opt_str_view(o: Option<&str>) -> Option<Seq<char>> {
    match o {
        Some(s) => Some(s@),
        None => None,
    }
}

/// The view of a decoding result.
pub open spec fn decode_result_view(r: Result<DecodedToken, &'static str>) -> Result<
    TokenClaims,
    &'static str,
> {
    match r {
        Ok(d) => Ok(d@),
        Err(e) => Err(e),
    }
}

/// What decoding `token` gives at `now` (Unix seconds): the claims, or the
/// first check that fails. The signature is checked before the payload is
/// decoded, and `verify_type`, where given, must equal the key type.
pub open spec fn decode_token_spec(
    token: Seq<char>,
    verify_type: Option<Seq<char>>,
    key: Seq<char>,
    now: nat,
) -> Result<TokenClaims, &'static str> {
    if !starts_with_spec(token, seq!['L', 'V', ' ']) {
        Err("INVALID_TOKEN")
    } else {
        let rest = token.skip(3);
        match last_index_of(rest, '.') {
            None => Err("INVALID_TOKEN_FORMAT"),
            Some(k) => {
                let payload = rest.take(k);
                let signature = rest.skip(k + 1);
                if signature != token_signature(payload, key) {
                    Err("INVALID_SIGNATURE")
                } else {
                    match spec_b64_decode(payload) {
                        None => Err("DECODE_ERROR"),
                        Some(bytes) => {
                            if !valid_utf8(bytes) {
                                Err("DECODE_ERROR")
                            } else {
                                let parts = split_spec(decode_utf8(bytes), '\0');
                                if parts.len() != 5 {
                                    Err("DECODE_ERROR")
                                } else {
                                    match parse_u64_spec(parts[1]) {
                                        None => Err("DECODE_ERROR"),
                                        Some(exp) => {
                                            if verify_type is Some && verify_type.unwrap()
                                                != parts[4] {
                                                Err("INVALID_TOKEN")
                                            } else {
                                                Ok(
                                                    TokenClaims {
                                                        user_id: parts[0],
                                                        is_expired: now > exp,
                                                        expiration_timestamp: exp,
                                                        secret: parts[2],
                                                        key_type: parts[4],
                                                        session_id: parts[3],
                                                    },
                                                )
                                            }
                                        },
                                    }
                                }
                            }
                        },
                    }
                }
            },
        }
    }
}

/// The HMAC-SHA256 of `message` under `signature_key`, in base64.
fn hmac_sha256_b64(message: &str, signature_key: &str) -> (res: String)
    ensures
        res@ == token_signature(message@, signature_key@),
        forall|i: int| 0 <= i < res@.len() ==> is_b64_char(#[trigger] res@[i]),
{
    let tag = hmac_sha256(signature_key.as_bytes(), message.as_bytes());
    b64_encode(tag.as_slice())
}

/// Whether `sig_b64` is the signature of `message` under `signature_key`.
fn verify_hmac_b64(message: &str, sig_b64: &str, signature_key: &str) -> (res: bool)
    ensures
        res == (sig_b64@ == token_signature(message@, signature_key@)),
{
    let expected = hmac_sha256_b64(message, signature_key);
    str_eq(expected.as_str(), sig_b64)
}

/// The characters `s[from..to]`.
pub fn sub_chars(s: &[char], from: usize, to: usize) -> (res: Vec<char>)
    requires
        from <= to <= s@.len(),
    ensures
        res@ == s@.subrange(from as int, to as int),
{
    let mut res: Vec<char> = Vec::new();
    let mut k = from;
    while k < to
        invariant
            from <= k <= to <= s@.len(),
            res@ == s@.subrange(from as int, k as int),
        decreases to - k,
    {
        res.push(s[k]);
        assert(s@.subrange(from as int, k + 1) == s@.subrange(from as int, k as int).push(
            s@[k as int],
        ));
        k = k + 1;
    }
    res
}

/// Decodes `token` at `now_secs` (Unix seconds): checks the `LV ` prefix,
/// the signature under `signature_key`, the encoding and the five fields,
/// and, where `verify_type` is given, the key type.
pub fn decode_token_at(
    token: &str,
    verify_type: Option<&str>,
    signature_key: &str,
    now_secs: u64,
) -> (res: Result<DecodedToken, &'static str>)
    ensures
        decode_result_view(res) == decode_token_spec(
            token@,
            opt_str_view(verify_type),
            signature_key@,
            now_secs as nat,
        ),
{
    let tc = chars_of(token);
    if !(tc.len() >= 3 && tc[0] == 'L' && tc[1] == 'V' && tc[2] == ' ') {
        proof {
            if tc@.len() >= 3 {
                assert(tc@.subrange(0, 3)[0] == tc@[0]);
                assert(tc@.subrange(0, 3)[1] == tc@[1]);
                assert(tc@.subrange(0, 3)[2] == tc@[2]);
            }
        }
        return Err("INVALID_TOKEN");
    }
    assert(tc@.subrange(0, 3) =~= seq!['L', 'V', ' ']);
    let rest = sub_chars(tc.as_slice(), 3, tc.len());
    assert(rest@ =~= token@.skip(3));
    let k = match last_index_of_char(rest.as_slice(), '.') {
        Some(k) => k,
        None => {
            return Err("INVALID_TOKEN_FORMAT");
        },
    };
    proof {
        lemma_last_index_in_range(rest@, '.');
    }
    let payload_chars = sub_chars(rest.as_slice(), 0, k);
    let sig_chars = sub_chars(rest.as_slice(), k + 1, rest.len());
    assert(payload_chars@ =~= rest@.take(k as int));
    assert(sig_chars@ =~= rest@.skip(k + 1));
    let payload = string_from_chars(payload_chars.as_slice());
    let signature = string_from_chars(sig_chars.as_slice());
    if !verify_hmac_b64(payload.as_str(), signature.as_str(), signature_key) {
        return Err("INVALID_SIGNATURE");
    }
    let decrypted = match b64_decode(payload.as_str()) {
        Ok(b) => b,
        Err(_) => {
            return Err("DECODE_ERROR");
        },
    };
    let decoded_str = match string_from_utf8(decrypted) {
        Some(s) => s,
        None => {
            return Err("DECODE_ERROR");
        },
    };
    let dc = chars_of(decoded_str.as_str());
    let parts = split_chars(dc.as_slice(), '\0');
    if parts.len() != 5 {
        return Err("DECODE_ERROR");
    }
    assert(parts@[1]@ == views(parts@)[1]);
    let expiration_ts = match parse_u64(parts[1].as_slice()) {
        Some(v) => v,
        None => {
            return Err("DECODE_ERROR");
        },
    };
    assert(parts@[4]@ == views(parts@)[4]);
    match verify_type {
        Some(vt) => {
            let vc = chars_of(vt);
            if !chars_eq(vc.as_slice(), parts[4].as_slice()) {
                return Err("INVALID_TOKEN");
            }
        },
        None => {},
    }
    assert(parts@[0]@ == views(parts@)[0]);
    assert(parts@[2]@ == views(parts@)[2]);
    assert(parts@[3]@ == views(parts@)[3]);
    let is_expired = now_secs > expiration_ts;
    Ok(
        DecodedToken {
            user_id: string_from_chars(parts[0].as_slice()),
            is_expired,
            expiration_timestamp: expiration_ts,
            secret: string_from_chars(parts[2].as_slice()),
            key_type: string_from_chars(parts[4].as_slice()),
            session_id: string_from_chars(parts[3].as_slice()),
        },
    )
}

proof fn lemma_last_index_in_range(s: Seq<char>, c: char)
    ensures
        last_index_of(s, c) matches Some(k) ==> 0 <= k < s.len(),
    decreases s.len(),
{
    if s.len() > 0 {
        lemma_last_index_in_range(s.drop_last(), c);
    }
}

/// Decodes `token` at the current time (Unix seconds on the system clock,
/// or 0 where the clock reads before the epoch).
pub fn decode_token(token: &str, verify_type: Option<&'static str>, signature_key: &str) -> (res:
    Result<DecodedToken, &'static str>)
    ensures
        exists|now: nat|
            decode_result_view(res) == decode_token_spec(
                token@,
                opt_str_view(verify_type),
                signature_key@,
                now,
            ),
{
    let now = match unix_time_ms() {
        Some(ms) => ms / 1000,
        None => 0,
    };
    decode_token_at(token, verify_type, signature_key, now)
}

/// The claims that the token issued at `now` gives at `t`.
pub open spec fn issued_claims(
    user_id: Seq<char>,
    key_type: Seq<char>,
    long_term: bool,
    secret: Seq<char>,
    session_id: Seq<char>,
    now: nat,
    t: nat,
) -> TokenClaims {
    TokenClaims {
        user_id,
        is_expired: t > now + token_lifetime(long_term),
        expiration_timestamp: (now + token_lifetime(long_term)) as u64,
        secret,
        key_type,
        session_id,
    }
}

/// No field of a token holds a NUL character.
pub open spec fn fields_without_nul(
    user_id: Seq<char>,
    key_type: Seq<char>,
    secret: Seq<char>,
    session_id: Seq<char>,
) -> bool {
    lacks(user_id, '\0') && lacks(key_type, '\0') && lacks(secret, '\0') && lacks(session_id, '\0')
}

proof fn lemma_b64_lacks_dot(s: Seq<char>)
    requires
        forall|i: int| 0 <= i < s.len() ==> is_b64_char(#[trigger] s[i]),
    ensures
        lacks(s, '.'),
{
}

/// Issues a token for the fields at `now_secs` (Unix seconds), signed with
/// `signature_key`. Decoding the token gives the fields back, at any time,
/// with or without the matching key type, when no field holds a NUL.
pub fn generate_token_at(
    user_id: &str,
    key_type: &str,
    long_term: bool,
    secret: &str,
    session_id: &str,
    signature_key: &str,
    now_secs: u64,
) -> (res: String)
    requires
        now_secs + LONG_TERM_SECONDS <= u64::MAX,
        b64_fits(
            encode_utf8(
                token_text(
                    user_id@,
                    (now_secs + token_lifetime(long_term)) as nat,
                    secret@,
                    session_id@,
                    key_type@,
                ),
            ).len(),
        ),
    ensures
        res@ == token_spec(
            user_id@,
            key_type@,
            long_term,
            secret@,
            session_id@,
            signature_key@,
            now_secs as nat,
        ),
        fields_without_nul(user_id@, key_type@, secret@, session_id@) ==> forall|
            vt: Option<Seq<char>>,
            t: nat,
        |
            #[trigger] decode_token_spec(res@, vt, signature_key@, t) == if vt matches Some(v)
                && v != key_type@ {
                Err::<TokenClaims, &'static str>("INVALID_TOKEN")
            } else {
                Ok(
                    issued_claims(
                        user_id@,
                        key_type@,
                        long_term,
                        secret@,
                        session_id@,
                        now_secs as nat,
                        t,
                    ),
                )
            },
{
    let expiration = if long_term {
        now_secs + LONG_TERM_SECONDS
    } else {
        now_secs + SHORT_TERM_SECONDS
    };
    let mut combined = String::from_str(user_id);
    push_char(&mut combined, '\0');
    push_decimal(&mut combined, expiration);
    push_char(&mut combined, '\0');
    combined.append(secret);
    push_char(&mut combined, '\0');
    combined.append(session_id);
    push_char(&mut combined, '\0');
    combined.append(key_type);
    let ghost text = token_text(user_id@, expiration as nat, secret@, session_id@, key_type@);
    assert(combined@ =~= text);
    let payload = b64_encode(combined.as_str().as_bytes());
    let signature = hmac_sha256_b64(payload.as_str(), signature_key);
    let mut token = String::from_str("LV ");
    proof {
        reveal_strlit("LV ");
    }
    token.append(payload.as_str());
    push_char(&mut token, '.');
    token.append(signature.as_str());
    assert(token@ =~= seq!['L', 'V', ' '] + payload@ + seq!['.'] + signature@);
    proof {
        if fields_without_nul(user_id@, key_type@, secret@, session_id@) {
            lemma_b64_lacks_dot(signature@);
            lemma_decode_issued(
                token@,
                payload@,
                signature@,
                signature_key@,
                user_id@,
                expiration,
                secret@,
                session_id@,
                key_type@,
            );
        }
    }
    token
}

proof fn lemma_decode_issued(
    token: Seq<char>,
    payload: Seq<char>,
    signature: Seq<char>,
    key: Seq<char>,
    user_id: Seq<char>,
    exp: u64,
    secret: Seq<char>,
    session_id: Seq<char>,
    key_type: Seq<char>,
)
    requires
        token == seq!['L', 'V', ' '] + payload + seq!['.'] + signature,
        lacks(signature, '.'),
        signature == token_signature(payload, key),
        spec_b64_decode(payload) == Some(
            encode_utf8(token_text(user_id, exp as nat, secret, session_id, key_type)),
        ),
        lacks(user_id, '\0'),
        lacks(key_type, '\0'),
        lacks(secret, '\0'),
        lacks(session_id, '\0'),
    ensures
        forall|vt: Option<Seq<char>>, t: nat|
            #[trigger] decode_token_spec(token, vt, key, t) == if vt matches Some(v) && v
                != key_type {
                Err::<TokenClaims, &'static str>("INVALID_TOKEN")
            } else {
                Ok(
                    TokenClaims {
                        user_id,
                        is_expired: t > exp,
                        expiration_timestamp: exp,
                        secret,
                        key_type,
                        session_id,
                    },
                )
            },
{
    let text = token_text(user_id, exp as nat, secret, session_id, key_type);
    assert(token.subrange(0, 3) =~= seq!['L', 'V', ' ']);
    let rest = token.skip(3);
    assert(rest =~= payload + seq!['.'] + signature);
    lemma_last_index_concat(payload, signature, '.');
    assert(rest.take(payload.len() as int) =~= payload);
    assert(rest.skip(payload.len() as int + 1) =~= signature);
    let dec = nat_to_decimal(exp as nat);
    lemma_decimal_digits(exp as nat);
    lemma_parse_u64_decimal(exp);
    lemma_split_no_sep(user_id, '\0');
    lemma_split_no_sep(dec, '\0');
    lemma_split_no_sep(secret, '\0');
    lemma_split_no_sep(session_id, '\0');
    lemma_split_no_sep(key_type, '\0');
    lemma_split_concat(user_id, dec + seq!['\0'] + secret + seq!['\0'] + session_id + seq!['\0']
        + key_type, '\0');
    lemma_split_concat(dec, secret + seq!['\0'] + session_id + seq!['\0'] + key_type, '\0');
    lemma_split_concat(secret, session_id + seq!['\0'] + key_type, '\0');
    lemma_split_concat(session_id, key_type, '\0');
    assert(text =~= user_id + seq!['\0'] + (dec + seq!['\0'] + secret + seq!['\0'] + session_id
        + seq!['\0'] + key_type));
    assert(dec + seq!['\0'] + secret + seq!['\0'] + session_id + seq!['\0'] + key_type =~= dec
        + seq!['\0'] + (secret + seq!['\0'] + session_id + seq!['\0'] + key_type));
    assert(secret + seq!['\0'] + session_id + seq!['\0'] + key_type =~= secret + seq!['\0'] + (
    session_id + seq!['\0'] + key_type));
    let parts = split_spec(text, '\0');
    assert(parts =~= seq![user_id, dec, secret, session_id, key_type]);
    assert(decode_utf8(encode_utf8(text)) == text);
}

/// Issues a token for the fields at the current time, signed with
/// `signature_key`; `None` where the system clock reads before the epoch.
pub fn generate_token(
    user_id: &str,
    key_type: &str,
    long_term: bool,
    secret: &str,
    session_id: &str,
    signature_key: &str,
) -> (res: Option<String>)
    requires
        token_fields_fit(user_id@, secret@, session_id@, key_type@),
    ensures
        res matches Some(tok) ==> exists|now: nat|
            tok@ == token_spec(
                user_id@,
                key_type@,
                long_term,
                secret@,
                session_id@,
                signature_key@,
                now,
            ),
{
    let now = match unix_time_ms() {
        Some(ms) => ms / 1000,
        None => {
            return None;
        },
    };
    let ghost exp = (now + token_lifetime(long_term)) as nat;
    assert(b64_fits(
        encode_utf8(token_text(user_id@, exp, secret@, session_id@, key_type@)).len(),
    ));
    Some(generate_token_at(user_id, key_type, long_term, secret, session_id, signature_key, now))
}

} // verus!
