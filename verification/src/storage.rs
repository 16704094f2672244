//! Links and tokens for the file storage (CDN): public URLs, signed
//! operation tokens, and expiring links to private objects.
use vstd::prelude::*;
use vstd::utf8::*;

use crate::encoding::{
    b64url_encode, hmac_sha256, spec_b64_encode, spec_b64url_encode, spec_hmac_sha256,
    unix_time_ms,
};
use crate::security::{b64_encode, b64_fits};
use crate::state::Config;
use crate::text::{
    chars_of, contains_spec, i64_to_decimal, int_to_decimal, lemma_i64_decimal_short, push_char,
    push_chars, starts_with_spec, str_contains, str_starts_with,
};

verus! {

/// Where the storage serves objects from.
pub const PUBLIC_PATH: &'static str = "https://storage.sharinflame.com";

/// An operation on a stored object.
#[derive(Debug, Clone, Copy, PartialEq, Eq)]
pub enum Operation {
    PUT,
    DELETE,
    GET,
    HEAD,
}

impl Operation {
    /// The operation's name.
    pub open spec fn name_spec(self) -> Seq<char> {
        match self {
            Operation::PUT => "PUT"@,
            Operation::DELETE => "DELETE"@,
            Operation::GET => "GET"@,
            Operation::HEAD => "HEAD"@,
        }
    }

    /// The operation's name.
    pub fn to_string(&self) -> (res: String)
        ensures
            res@ == self.name_spec(),
    {
        match self {
            Operation::PUT => String::from_str("PUT"),
            Operation::DELETE => String::from_str("DELETE"),
            Operation::GET => String::from_str("GET"),
            Operation::HEAD => String::from_str("HEAD"),
        }
    }
}

/// The public URL of the object at `path`.
pub open spec fn public_url_spec(path: Seq<char>) -> Seq<char> {
    PUBLIC_PATH@ + seq!['/'] + path
}

/// The public URL of the object at `path`.
pub fn public_url(path: &str) -> (res: String)
    ensures
        res@ == public_url_spec(path@),
{
    let mut out = String::from_str(PUBLIC_PATH);
    push_char(&mut out, '/');
    out.append(path);
    out
}

/// A URL as the frontend needs it: a bare object path becomes its public
/// URL; a full URL (one with `://`) stays as it is.
pub open spec fn normalize_url_spec(u: Seq<char>) -> Seq<char> {
    if contains_spec(u, "://"@) {
        u
    } else {
        public_url_spec(u)
    }
}

/// Normalizes a URL for the frontend.
pub fn normalize_url(url: Option<String>) -> (res: Option<String>)
    ensures
        match url {
            None => res is None,
            Some(u) => (res matches Some(r) && r@ == normalize_url_spec(u@)),
        },
{
    match url {
        Some(u) => {
            if !str_contains(u.as_str(), "://") {
                Some(public_url(u.as_str()))
            } else {
                Some(u)
            }
        },
        None => None,
    }
}

/// Normalizing a normalized URL changes nothing: a public URL already holds
/// `://`.
pub proof fn lemma_normalize_url_idempotent(u: Seq<char>)
    ensures
        normalize_url_spec(normalize_url_spec(u)) == normalize_url_spec(u),
{
    reveal_strlit("https://storage.sharinflame.com");
    reveal_strlit("://");
    if !contains_spec(u, "://"@) {
        let v = public_url_spec(u);
        assert(v.subrange(5, 8) =~= "://"@);
        assert(crate::text::occurs_at(v, "://"@, 5));
    }
}

/// The HMAC-SHA256 signature of `msg` under `key`.
fn sign(key: &[u8], msg: &[u8]) -> (res: Vec<u8>)
    ensures
        res@ == spec_hmac_sha256(key@, msg@),
        res@.len() == 32,
{
    hmac_sha256(key, msg)
}

/// `s` without its leading `c` characters.
pub open spec fn strip_leading(s: Seq<char>, c: char) -> Seq<char>
    decreases s.len(),
{
    if s.len() > 0 && s[0] == c {
        strip_leading(s.drop_first(), c)
    } else {
        s
    }
}

proof fn lemma_strip_leading_skip(s: Seq<char>, c: char, i: int)
    requires
        0 <= i <= s.len(),
        forall|k: int| 0 <= k < i ==> #[trigger] s[k] == c,
        i == s.len() || s[i] != c,
    ensures
        strip_leading(s, c) == s.skip(i),
    decreases i,
{
    if i == 0 {
        assert(s.skip(0) =~= s);
    } else {
        lemma_strip_leading_skip(s.drop_first(), c, i - 1);
        assert(s.drop_first().skip(i - 1) =~= s.skip(i));
    }
}

/// `s` without its leading `c` characters (std's `trim_start_matches`).
pub fn strip_leading_chars(s: &[char], c: char) -> (res: Vec<char>)
    ensures
        res@ == strip_leading(s@, c),
{
    let mut i: usize = 0;
    while i < s.len() && s[i] == c
        invariant
            i <= s@.len(),
            forall|k: int| 0 <= k < i ==> #[trigger] s@[k] == c,
        decreases s@.len() - i,
    {
        i = i + 1;
    }
    proof {
        lemma_strip_leading_skip(s@, c, i as int);
    }
    let mut res: Vec<char> = Vec::new();
    let mut k: usize = i;
    while k < s.len()
        invariant
            i <= k <= s@.len(),
            res@ == s@.subrange(i as int, k as int),
        decreases s@.len() - k,
    {
        res.push(s[k]);
        assert(s@.subrange(i as int, k + 1) == s@.subrange(i as int, k as int).push(s@[k as int]));
        k = k + 1;
    }
    assert(res@ =~= s@.skip(i as int));
    res
}

/// The entry that allows `op` on `path`: `OP:path`, without the path's
/// leading slashes.
pub open spec fn operation_entry(op: Operation, path: Seq<char>) -> Seq<char> {
    op.name_spec() + seq![':'] + strip_leading(path, '/')
}

/// The entries that allow each operation on its path, in order.
pub fn operation_entries(allowed_operations: &[(Operation, &str)]) -> (res: Vec<String>)
    ensures
        res@.len() == allowed_operations@.len(),
        forall|i: int|
            0 <= i < res@.len() ==> #[trigger] res@[i]@ == operation_entry(
                allowed_operations@[i].0,
                allowed_operations@[i].1@,
            ),
{
    let mut out: Vec<String> = Vec::new();
    for i in 0..allowed_operations.len()
        invariant
            out@.len() == i,
            forall|j: int|
                0 <= j < i ==> #[trigger] out@[j]@ == operation_entry(
                    allowed_operations@[j].0,
                    allowed_operations@[j].1@,
                ),
    {
        let (op, path) = &allowed_operations[i];
        let mut entry = op.to_string();
        push_char(&mut entry, ':');
        let pc = chars_of(path);
        let stripped = strip_leading_chars(pc.as_slice(), '/');
        push_chars(&mut entry, stripped.as_slice());
        out.push(entry);
    }
    out
}

/// The storage token for a signed payload: `LV <key number>.<payload>.<signature>`,
/// where the payload is the JSON in base64 and the signature is the
/// HMAC-SHA256 of the base64 text under the storage key, in base64.
pub open spec fn storage_token_spec(payload_json: Seq<u8>, key: Seq<char>, key_n: Seq<char>) -> Seq<
    char,
> {
    let p = spec_b64_encode(payload_json);
    "LV "@ + key_n + seq!['.'] + p + seq!['.'] + spec_b64_encode(
        spec_hmac_sha256(encode_utf8(key), encode_utf8(p)),
    )
}

/// Signs the JSON payload of a storage token with the storage key of
/// `config`.
pub fn signed_token_from_payload(payload_json: &[u8], config: &Config) -> (res: String)
    requires
        b64_fits(payload_json@.len()),
    ensures
        res@ == storage_token_spec(
            payload_json@,
            config.cdn_secret_key@,
            config.cdn_secret_key_n@,
        ),
{
    let payload_b64 = b64_encode(payload_json);
    let signature = b64_encode(
        sign(config.cdn_secret_key.as_str().as_bytes(), payload_b64.as_str().as_bytes()).as_slice(),
    );
    let mut token = String::from_str("LV ");
    token.append(config.cdn_secret_key_n.as_str());
    push_char(&mut token, '.');
    token.append(payload_b64.as_str());
    push_char(&mut token, '.');
    token.append(signature.as_str());
    token
}

// ---------------------------------------------------------------------------
// Expiring links
// ---------------------------------------------------------------------------

/// The last second (23:59:59 UTC) of the day of the Unix time `ts`.
pub open spec fn end_of_day(ts: int) -> int {
    (ts / 86400) * 86400 + 86399
}

/// Times well inside the range of chrono's `DateTime<Utc>` (about 253,000
/// years around 1970), where the expiry of a link can be computed.
pub open spec fn within_link_range(now: int, days: int) -> bool {
    &&& -8000000000000 <= now <= 8000000000000
    &&& -8000000000000 <= now + days * 86400 <= 8000000000000
}

/// The last second of the day that is `days` days after the Unix time
/// `now_secs` (chrono: `DateTime::from_timestamp`, `checked_add_signed` of
/// `TimeDelta::try_days`, `date_naive`, `and_hms_opt(23, 59, 59)`,
/// `and_utc`, `timestamp`). `None` where chrono's range is exceeded. The
/// contract claims the value, and that it exists within `within_link_range`;
/// where beyond that chrono's range ends exactly is not stated.
#[verifier::external_body]
fn end_of_day_after(now_secs: i64, days: i64) -> (res: Option<i64>)
    ensures
        res matches Some(t) ==> t == end_of_day(now_secs + days * 86400),
        within_link_range(now_secs as int, days as int) ==> res is Some,
{
    let start = chrono::DateTime::from_timestamp(now_secs, 0)?;
    let later = start.checked_add_signed(chrono::TimeDelta::try_days(days)?)?;
    Some(later.date_naive().and_hms_opt(23, 59, 59)?.and_utc().timestamp())
}

/// The current Unix time in whole seconds on the system clock; `None` where
/// the clock reads before the epoch.
fn unix_now_secs() -> (res: Option<i64>)
    ensures
        res matches Some(t) ==> t >= 0,
{
    match unix_time_ms() {
        Some(ms) => Some((ms / 1000) as i64),
        None => None,
    }
}

/// The link to a private object that expires at the Unix time `expires`:
/// its public URL with `?token=lv.<key number>.<expiry>.<signature>`, where
/// the expiry is the time in decimal, in URL-safe base64, and the signature
/// is the HMAC-SHA256 of `object|expiry` under the storage key, in URL-safe
/// base64.
pub open spec fn private_link_spec(object: Seq<char>, expires: int, key: Seq<char>, key_n: Seq<
    char,
>) -> Seq<char> {
    let ts = int_to_decimal(expires);
    let payload = spec_b64url_encode(encode_utf8(ts));
    let signature = spec_b64url_encode(
        spec_hmac_sha256(encode_utf8(key), encode_utf8(object + seq!['|'] + ts)),
    );
    public_url_spec(object) + "?token=lv."@ + key_n + seq!['.'] + payload + seq!['.'] + signature
}

/// The link to a private object that the clock reading `now` (Unix
/// seconds) gives, expiring at the end of the day `days` days later.
pub open spec fn private_link_at(object: Seq<char>, now: int, days: int, config: Config) -> Seq<
    char,
> {
    private_link_spec(
        object,
        end_of_day(now + days * 86400),
        config.cdn_secret_key@,
        config.cdn_secret_key_n@,
    )
}

/// Objects under `public/` need no token.
pub open spec fn is_public_object(object: Seq<char>) -> bool {
    starts_with_spec(object, "public/"@)
}

/// The link to `object` when the clock reads `now_secs`: for a public object
/// its public URL; otherwise a signed link that expires at the end of the
/// day `expires_days` days later. `None` only where that day is beyond
/// chrono's range.
pub fn build_get_link_at(object: &str, expires_days: i64, now_secs: i64, config: &Config) -> (res:
    Option<String>)
    ensures
        is_public_object(object@) ==> (res matches Some(l) && l@ == public_url_spec(object@)),
        !is_public_object(object@) ==> (res matches Some(l) ==> l@ == private_link_at(
            object@,
            now_secs as int,
            expires_days as int,
            *config,
        )),
        !is_public_object(object@) && within_link_range(now_secs as int, expires_days as int)
            ==> res is Some,
{
    let full_path = public_url(object);
    if str_starts_with(object, "public/") {
        return Some(full_path);
    }
    let expires_timestamp = match end_of_day_after(now_secs, expires_days) {
        Some(t) => t,
        None => {
            return None;
        },
    };
    let ts = i64_to_decimal(expires_timestamp);
    proof {
        lemma_i64_decimal_short(expires_timestamp);
        is_ascii_chars_encode_utf8(ts@);
    }
    let payload_b64 = b64url_encode(ts.as_str().as_bytes());
    let mut signature_payload = String::from_str(object);
    push_char(&mut signature_payload, '|');
    signature_payload.append(ts.as_str());
    assert(signature_payload@ =~= object@ + seq!['|'] + ts@);
    let signature = b64url_encode(
        sign(
            config.cdn_secret_key.as_str().as_bytes(),
            signature_payload.as_str().as_bytes(),
        ).as_slice(),
    );
    let mut link = full_path;
    link.append("?token=lv.");
    link.append(config.cdn_secret_key_n.as_str());
    push_char(&mut link, '.');
    link.append(payload_b64.as_str());
    push_char(&mut link, '.');
    link.append(signature.as_str());
    assert(link@ =~= private_link_spec(
        object@,
        expires_timestamp as int,
        config.cdn_secret_key@,
        config.cdn_secret_key_n@,
    ));
    Some(link)
}

/// `link` is a link to `object` that `build_get_link` can give for some
/// reading of the clock.
pub open spec fn is_link_for(object: Seq<char>, link: Seq<char>, days: int, config: Config) -> bool {
    if is_public_object(object) {
        link == public_url_spec(object)
    } else {
        exists|now: int| link == #[trigger] private_link_at(object, now, days, config)
    }
}

/// The link to `object`, expiring at the end of the day `expires_days` days
/// from now (on the system clock, which only private objects read); `None`
/// only for a private object where the clock reads before the epoch or that
/// day is beyond chrono's range.
pub fn build_get_link(object: &str, expires_days: i64, config: &Config) -> (res: Option<String>)
    ensures
        is_public_object(object@) ==> (res matches Some(l) && l@ == public_url_spec(object@)),
        res matches Some(l) ==> is_link_for(object@, l@, expires_days as int, *config),
{
    if str_starts_with(object, "public/") {
        return Some(public_url(object));
    }
    match unix_now_secs() {
        Some(now) => build_get_link_at(object, expires_days, now, config),
        None => None,
    }
}

/// Days that the links to media stay valid.
pub const MEDIA_LINK_DAYS: i64 = 3;

/// The link to `object` when the clock reads `now` (Unix seconds): its
/// public URL for a public object, else the signed link expiring at the end
/// of the day `days` days later.
pub open spec fn link_at(object: Seq<char>, now: int, days: int, config: Config) -> Seq<char> {
    if is_public_object(object) {
        public_url_spec(object)
    } else {
        private_link_at(object, now, days, config)
    }
}

/// `links` are the links to each of `from`, in order, when the clock reads
/// `now`.
pub open spec fn links_at(
    from: Seq<String>,
    links: Seq<String>,
    now: int,
    days: int,
    config: Config,
) -> bool {
    &&& links.len() == from.len()
    &&& forall|i: int|
        0 <= i < links.len() ==> #[trigger] links[i]@ == link_at(from[i]@, now, days, config)
}

/// The links to each object, in order, valid for `MEDIA_LINK_DAYS` days when
/// the clock reads `now` (Unix seconds; `None` for a reading before the
/// epoch), all from that one reading. `None` only where an object is
/// private and the reading is missing or beyond the range of a link.
pub fn build_links_at(from: &Vec<String>, now: Option<i64>, config: &Config) -> (res: Option<
    Vec<String>,
>)
    ensures
        res matches Some(v) ==> links_at(
            from@,
            v@,
            match now {
                Some(t) => t as int,
                None => 0,
            },
            MEDIA_LINK_DAYS as int,
            *config,
        ),
        ((forall|i: int| 0 <= i < from@.len() ==> is_public_object(#[trigger] from@[i]@)) || (
        now matches Some(t) && within_link_range(t as int, MEDIA_LINK_DAYS as int))) ==> res is Some,
{
    let ghost t: int = match now {
        Some(t) => t as int,
        None => 0,
    };
    let mut new: Vec<String> = Vec::new();
    for i in 0..from.len()
        invariant
            new@.len() == i,
            t == match now {
                Some(n) => n as int,
                None => 0,
            },
            forall|j: int|
                0 <= j < i ==> #[trigger] new@[j]@ == link_at(
                    from@[j]@,
                    t,
                    MEDIA_LINK_DAYS as int,
                    *config,
                ),
    {
        let object = from[i].as_str();
        if str_starts_with(object, "public/") {
            new.push(public_url(object));
        } else {
            let n = match now {
                Some(n) => n,
                None => {
                    return None;
                },
            };
            match build_get_link_at(object, MEDIA_LINK_DAYS, n, config) {
                Some(l) => new.push(l),
                None => {
                    return None;
                },
            }
        }
    }
    Some(new)
}

/// The links to each object, in order, valid for `MEDIA_LINK_DAYS` days, all
/// from one reading of the system clock; `None` only where an object is
/// private and the clock reads before the epoch or beyond the range of a
/// link, so never where every object is public.
pub fn build_links(from: Vec<String>, config: &Config) -> (res: Option<Vec<String>>)
    ensures
        (forall|i: int| 0 <= i < from@.len() ==> is_public_object(#[trigger] from@[i]@))
            ==> res is Some,
        res matches Some(v) ==> exists|now: int|
            #[trigger] links_at(from@, v@, now, MEDIA_LINK_DAYS as int, *config),
{
    let now = unix_now_secs();
    let res = build_links_at(&from, now, config);
    res
}

} // verus!
