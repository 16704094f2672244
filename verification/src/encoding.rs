//! Byte encodings and primitives from outside crates (base64, HMAC-SHA256,
//! PBKDF2, the OS random source, the system clock), and hex, which is
//! written and proved here.
use vstd::prelude::*;
use vstd::utf8::*;

use base64::Engine;
use hmac::Mac;
use rand::TryRngCore;

verus! {

// ---------------------------------------------------------------------------
// Base64
// ---------------------------------------------------------------------------

#[verifier::external_type_specification]
#[verifier::external_body]
pub struct ExDecodeError(base64::DecodeError);

/// What base64's `STANDARD` engine encodes `data` to.
pub uninterp spec fn spec_b64_encode(data: Seq<u8>) -> Seq<char>;

/// What base64's `STANDARD` engine decodes the text `s` to, or `None` where
/// it reports an error.
pub uninterp spec fn spec_b64_decode(s: Seq<char>) -> Option<Seq<u8>>;

/// What base64's `URL_SAFE_NO_PAD` engine encodes `data` to.
pub uninterp spec fn spec_b64url_encode(data: Seq<u8>) -> Seq<char>;

/// A character of the standard base64 alphabet, or its padding `=`.
pub open spec fn is_b64_char(c: char) -> bool {
    ||| ('A' <= c && c <= 'Z')
    ||| ('a' <= c && c <= 'z')
    ||| ('0' <= c && c <= '9')
    ||| c == '+'
    ||| c == '/'
    ||| c == '='
}

/// A character of the URL-safe base64 alphabet.
pub open spec fn is_b64url_char(c: char) -> bool {
    ||| ('A' <= c && c <= 'Z')
    ||| ('a' <= c && c <= 'z')
    ||| ('0' <= c && c <= '9')
    ||| c == '-'
    ||| c == '_'
}

/// Encodes `data` with base64's `URL_SAFE_NO_PAD` engine (`Engine::encode`).
/// The contract claims the output is `ceil(4n / 3)` characters of the
/// URL-safe alphabet, without padding.
#[verifier::external_body]
pub(crate) fn b64url_encode(data: &[u8]) -> (res: String)
    requires
        (4 * data@.len() + 2) / 3 <= usize::MAX,
    ensures
        res@ == spec_b64url_encode(data@),
        res@.len() == (4 * data@.len() + 2) / 3,
        forall|i: int| 0 <= i < res@.len() ==> is_b64url_char(#[trigger] res@[i]),
{
    base64::engine::general_purpose::URL_SAFE_NO_PAD.encode(data)
}

// ---------------------------------------------------------------------------
// HMAC-SHA256 and PBKDF2
// ---------------------------------------------------------------------------

/// The HMAC-SHA256 tag of `msg` under `key`.
pub uninterp spec fn spec_hmac_sha256(key: Seq<u8>, msg: Seq<u8>) -> Seq<u8>;

/// The HMAC-SHA256 tag of `msg` under `key` (hmac's `Hmac<Sha256>`:
/// `new_from_slice`, `update`, `finalize`). The contract ties the tag to the
/// name and claims its length of 32 bytes. HMAC takes keys of any length, so
/// `new_from_slice` does not fail.
#[verifier::external_body]
pub(crate) fn hmac_sha256(key: &[u8], msg: &[u8]) -> (res: Vec<u8>)
    ensures
        res@ == spec_hmac_sha256(key@, msg@),
        res@.len() == 32,
{
    let mut mac = <hmac::Hmac<sha2::Sha256> as Mac>::new_from_slice(key).expect(
        "HMAC can take a key of any size",
    );
    mac.update(msg);
    mac.finalize().into_bytes().to_vec()
}

/// The PBKDF2-HMAC-SHA256 key of `out_len` bytes derived from `password` and
/// `salt` in `rounds` rounds.
pub uninterp spec fn spec_pbkdf2_sha256(
    password: Seq<u8>,
    salt: Seq<u8>,
    rounds: u32,
    out_len: nat,
) -> Seq<u8>;

/// Derives `out_len` bytes from `password` and `salt` with pbkdf2's
/// `pbkdf2_hmac::<Sha256>` in `rounds` rounds. The contract ties the result
/// to the name and claims its length.
#[verifier::external_body]
pub(crate) fn pbkdf2_sha256(password: &[u8], salt: &[u8], rounds: u32, out_len: usize) -> (res: Vec<u8>)
    ensures
        res@ == spec_pbkdf2_sha256(password@, salt@, rounds, out_len as nat),
        res@.len() == out_len,
{
    let mut out = vec![0u8; out_len];
    pbkdf2::pbkdf2_hmac::<sha2::Sha256>(password, salt, rounds, &mut out);
    out
}

// ---------------------------------------------------------------------------
// Randomness, text decoding and time
// ---------------------------------------------------------------------------

/// `len` bytes from the operating system's random source (rand's `OsRng`,
/// `try_fill_bytes`); `None` where the operating system reports that it
/// cannot supply them. Only the length is claimed: the bytes are random, and
/// whether the source fails is up to the operating system.
#[verifier::external_body]
pub(crate) fn random_bytes(len: usize) -> (res: Option<Vec<u8>>)
    ensures
        res matches Some(bytes) ==> bytes@.len() == len,
{
    let mut bytes = vec![0u8; len];
    match rand::rngs::OsRng.try_fill_bytes(&mut bytes) {
        Ok(()) => Some(bytes),
        Err(_) => None,
    }
}

/// The text that the UTF-8 bytes `bytes` encode, as std's `String::from_utf8`:
/// `None` exactly where the bytes are not valid UTF-8.
#[verifier::external_body]
pub(crate) fn string_from_utf8(bytes: Vec<u8>) -> (res: Option<String>)
    ensures
        res is Some <==> valid_utf8(bytes@),
        res matches Some(s) ==> s@ == decode_utf8(bytes@),
{
    String::from_utf8(bytes).ok()
}

/// Milliseconds since the Unix epoch on the system clock (std's
/// `SystemTime::now` and `duration_since`), or `None` where the clock reads
/// a time before the epoch. Nothing is claimed of the value: it is whatever
/// the clock reads.
#[verifier::external_body]
pub(crate) fn unix_time_ms() -> Option<u64> {
    match std::time::SystemTime::now().duration_since(std::time::UNIX_EPOCH) {
        Ok(d) => Some(d.as_millis() as u64),
        Err(_) => None,
    }
}

// ---------------------------------------------------------------------------
// Hex (lower case on output, either case on input), as the hex crate does it
// ---------------------------------------------------------------------------

/// The lower-case hex digit of `v < 16`.
pub open spec fn hex_digit(v: nat) -> char {
    if v < 10 {
        ((v + 48) as u8) as char
    } else {
        ((v + 87) as u8) as char
    }
}

/// The two lower-case hex digits of a byte.
pub open spec fn hex_pair(b: u8) -> Seq<char> {
    seq![hex_digit((b / 16) as nat), hex_digit((b % 16) as nat)]
}

/// The lower-case hex text of `data` (hex's `encode`).
pub open spec fn hex_encode_spec(data: Seq<u8>) -> Seq<char>
    decreases data.len(),
{
    if data.len() == 0 {
        Seq::<char>::empty()
    } else {
        hex_encode_spec(data.drop_last()) + hex_pair(data.last())
    }
}

/// A hex digit of either case.
pub open spec fn is_hex_char(c: char) -> bool {
    ('0' <= c && c <= '9') || ('a' <= c && c <= 'f') || ('A' <= c && c <= 'F')
}

/// The value of a hex digit.
pub open spec fn hex_value(c: char) -> nat {
    if '0' <= c && c <= '9' {
        (c as nat - 48) as nat
    } else if 'a' <= c && c <= 'f' {
        (c as nat - 87) as nat
    } else {
        (c as nat - 55) as nat
    }
}

/// The bytes that hex text `s` spells (hex's `decode`): `None` for an odd
/// length or a character that is not a hex digit.
pub open spec fn hex_decode_spec(s: Seq<char>) -> Option<Seq<u8>> {
    if s.len() % 2 == 0 && forall|i: int| 0 <= i < s.len() ==> is_hex_char(#[trigger] s[i]) {
        Some(
            Seq::new(
                s.len() / 2,
                |i: int| (hex_value(s[2 * i]) * 16 + hex_value(s[2 * i + 1])) as u8,
            ),
        )
    } else {
        None
    }
}

fn hex_digit_exec(v: u8) -> (c: char)
    requires
        v < 16,
    ensures
        c == hex_digit(v as nat),
{
    if v < 10 {
        (v + 48) as char
    } else {
        (v + 87) as char
    }
}

proof fn lemma_hex_encode_len(data: Seq<u8>)
    ensures
        hex_encode_spec(data).len() == 2 * data.len(),
    decreases data.len(),
{
    if data.len() > 0 {
        lemma_hex_encode_len(data.drop_last());
    }
}

/// The lower-case hex text of `data`.
pub fn hex_encode(data: &[u8]) -> (res: String)
    ensures
        res@ == hex_encode_spec(data@),
{
    let mut out = String::new();
    for i in 0..data.len()
        invariant
            out@ == hex_encode_spec(data@.take(i as int)),
    {
        let b = data[i];
        crate::text::push_char(&mut out, hex_digit_exec(b / 16));
        crate::text::push_char(&mut out, hex_digit_exec(b % 16));
        assert(data@.take(i + 1).drop_last() =~= data@.take(i as int));
        assert(out@ =~= hex_encode_spec(data@.take(i + 1)));
    }
    assert(data@.take(data.len() as int) =~= data@);
    out
}

fn hex_value_exec(c: char) -> (res: Option<u8>)
    ensures
        res is Some <==> is_hex_char(c),
        res matches Some(v) ==> v == hex_value(c) && v < 16,
{
    if '0' <= c && c <= '9' {
        Some(((c as u32) - 48) as u8)
    } else if 'a' <= c && c <= 'f' {
        Some(((c as u32) - 87) as u8)
    } else if 'A' <= c && c <= 'F' {
        Some(((c as u32) - 55) as u8)
    } else {
        None
    }
}

/// The bytes that the hex text `s` spells, if it is hex.
pub fn hex_decode(s: &str) -> (res: Option<Vec<u8>>)
    ensures
        match res {
            Some(v) => hex_decode_spec(s@) == Some(v@),
            None => hex_decode_spec(s@) is None,
        },
{
    let cs = crate::text::chars_of(s);
    let n = cs.len();
    if n % 2 != 0 {
        return None;
    }
    let mut out: Vec<u8> = Vec::new();
    let mut i: usize = 0;
    while i < n / 2
        invariant
            n == cs@.len(),
            cs@ == s@,
            n % 2 == 0,
            i <= n / 2,
            out@.len() == i,
            forall|k: int| 0 <= k < 2 * i ==> is_hex_char(#[trigger] cs@[k]),
            forall|k: int|
                0 <= k < i ==> #[trigger] out@[k] == (hex_value(cs@[2 * k]) * 16 + hex_value(
                    cs@[2 * k + 1],
                )) as u8,
        decreases n / 2 - i,
    {
        let hi = hex_value_exec(cs[2 * i]);
        let lo = hex_value_exec(cs[2 * i + 1]);
        match (hi, lo) {
            (Some(h), Some(l)) => {
                out.push(h * 16 + l);
            },
            _ => {
                return None;
            },
        }
        i = i + 1;
    }
    assert(out@ =~= Seq::new(
        (n / 2) as nat,
        |k: int| (hex_value(cs@[2 * k]) * 16 + hex_value(cs@[2 * k + 1])) as u8,
    ));
    assert forall|k: int| 0 <= k < n implies is_hex_char(#[trigger] cs@[k]) by {
        assert(k < 2 * i);
    }
    Some(out)
}

/// Hex decoding undoes hex encoding.
pub proof fn lemma_hex_roundtrip(data: Seq<u8>)
    ensures
        hex_decode_spec(hex_encode_spec(data)) == Some(data),
    decreases data.len(),
{
    let s = hex_encode_spec(data);
    lemma_hex_encode_len(data);
    lemma_hex_encode_index(data);
    assert forall|i: int| 0 <= i < s.len() implies is_hex_char(#[trigger] s[i]) by {
        let k = i / 2;
        lemma_hex_digit_char(data[k]);
        assert(hex_encode_spec(data)[2 * k] == hex_digit((data[k] / 16) as nat));
        if i % 2 == 0 {
            assert(i == 2 * k);
        } else {
            assert(i == 2 * k + 1);
        }
    }
    let d = Seq::new(s.len() / 2, |i: int| (hex_value(s[2 * i]) * 16 + hex_value(s[2 * i + 1])) as u8);
    assert forall|k: int| 0 <= k < data.len() implies d[k] == data[k] by {
        lemma_hex_digit_char(data[k]);
        assert(hex_encode_spec(data)[2 * k] == hex_digit((data[k] / 16) as nat));
    }
    assert(d =~= data);
}

proof fn lemma_hex_digit_char(b: u8)
    ensures
        is_hex_char(hex_digit((b / 16) as nat)),
        is_hex_char(hex_digit((b % 16) as nat)),
        hex_value(hex_digit((b / 16) as nat)) == b / 16,
        hex_value(hex_digit((b % 16) as nat)) == b % 16,
        (hex_value(hex_digit((b / 16) as nat)) * 16 + hex_value(hex_digit((b % 16) as nat))) as u8
            == b,
{
}

proof fn lemma_hex_encode_index(data: Seq<u8>)
    ensures
        forall|k: int|
            0 <= k < data.len() ==> #[trigger] hex_encode_spec(data)[2 * k] == hex_digit(
                (data[k] / 16) as nat,
            ) && hex_encode_spec(data)[2 * k + 1] == hex_digit((data[k] % 16) as nat),
    decreases data.len(),
{
    if data.len() > 0 {
        let p = data.drop_last();
        lemma_hex_encode_index(p);
        lemma_hex_encode_len(p);
        assert forall|k: int| 0 <= k < data.len() implies #[trigger] hex_encode_spec(data)[2 * k]
            == hex_digit((data[k] / 16) as nat) && hex_encode_spec(data)[2 * k + 1] == hex_digit(
            (data[k] % 16) as nat,
        ) by {
            if k < p.len() {
                assert(hex_encode_spec(p)[2 * k] == hex_digit((p[k] / 16) as nat));
            }
        }
    }
}

} // verus!
