//! Validation of user names and of the fields of requests.
use vstd::prelude::*;

use crate::text::{chars_of, contains_spec, occurs_at, str_contains, str_eq};

verus! {

/// A character allowed in a user name: an ASCII letter or digit, `.` or `_`.
pub open spec fn is_username_char(c: char) -> bool {
    ('A' <= c && c <= 'Z') || ('a' <= c && c <= 'z') || ('0' <= c && c <= '9') || c == '.' || c
        == '_'
}

/// A valid user name: at least one character, all allowed (what regex's
/// `^[A-Za-z0-9._]+$` matches), with no `..` and no `__` in it.
pub open spec fn valid_username(name: Seq<char>) -> bool {
    &&& name.len() > 0
    &&& forall|i: int| 0 <= i < name.len() ==> is_username_char(#[trigger] name[i])
    &&& !contains_spec(name, ".."@)
    &&& !contains_spec(name, "__"@)
}

/// Checks a user name; the error code is `invalid_username`.
pub fn validate_username(nickname: &str) -> (res: Result<(), &'static str>)
    ensures
        res is Ok <==> valid_username(nickname@),
        res matches Err(e) ==> e == "invalid_username",
{
    let cs = chars_of(nickname);
    if cs.len() == 0 {
        return Err("invalid_username");
    }
    for i in 0..cs.len()
        invariant
            cs@ == nickname@,
            forall|k: int| 0 <= k < i ==> is_username_char(#[trigger] cs@[k]),
    {
        let c = cs[i];
        if !(('A' <= c && c <= 'Z') || ('a' <= c && c <= 'z') || ('0' <= c && c <= '9') || c == '.'
            || c == '_') {
            return Err("invalid_username");
        }
    }
    if str_contains(nickname, "..") || str_contains(nickname, "__") {
        return Err("invalid_username");
    }
    Ok(())
}

/// A user name is accepted exactly when it is not empty, each of its
/// characters is an ASCII letter of either case, an ASCII digit, `.` or `_`,
/// and no two `.` and no two `_` stand next to each other.
pub proof fn lemma_username_rule(name: Seq<char>)
    ensures
        valid_username(name) <==> {
            &&& name.len() > 0
            &&& forall|i: int|
                0 <= i < name.len() ==> {
                    ||| 'A' <= #[trigger] name[i] <= 'Z'
                    ||| 'a' <= name[i] <= 'z'
                    ||| '0' <= name[i] <= '9'
                    ||| name[i] == '.'
                    ||| name[i] == '_'
                }
            &&& forall|i: int|
                0 <= i < name.len() - 1 ==> !(#[trigger] name[i] == '.' && name[i + 1] == '.')
            &&& forall|i: int|
                0 <= i < name.len() - 1 ==> !(#[trigger] name[i] == '_' && name[i + 1] == '_')
        },
{
    reveal_strlit("..");
    reveal_strlit("__");
    assert forall|i: int| 0 <= i < name.len() - 1 implies (occurs_at(name, ".."@, i) <==> (
    #[trigger] name[i] == '.' && name[i + 1] == '.')) by {
        if name[i] == '.' && name[i + 1] == '.' {
            assert(name.subrange(i, i + 2) =~= ".."@);
        }
        if occurs_at(name, ".."@, i) {
            assert(name.subrange(i, i + 2)[0] == name[i]);
            assert(name.subrange(i, i + 2)[1] == name[i + 1]);
        }
    }
    assert forall|i: int| 0 <= i < name.len() - 1 implies (occurs_at(name, "__"@, i) <==> (
    #[trigger] name[i] == '_' && name[i + 1] == '_')) by {
        if name[i] == '_' && name[i + 1] == '_' {
            assert(name.subrange(i, i + 2) =~= "__"@);
        }
        if occurs_at(name, "__"@, i) {
            assert(name.subrange(i, i + 2)[0] == name[i]);
            assert(name.subrange(i, i + 2)[1] == name[i + 1]);
        }
    }
    if contains_spec(name, ".."@) {
        let i = choose|i: int| occurs_at(name, ".."@, i);
        assert(name[i] == '.');
    }
    if contains_spec(name, "__"@) {
        let i = choose|i: int| occurs_at(name, "__"@, i);
        assert(name[i] == '_');
    }
}

/// The number of UTF-8 bytes of a text (std's `str::len`).
pub open spec fn byte_len(s: Seq<char>) -> nat {
    vstd::utf8::encode_utf8(s).len()
}

/// The number of characters of an optional text lies in `[min, max]`, where
/// there is one (the validator crate's `length` on an `Option<String>`).
pub open spec fn opt_chars_within(s: Option<Seq<char>>, min: nat, max: nat) -> bool {
    match s {
        Some(t) => min <= t.len() <= max,
        None => true,
    }
}

/// The number of characters of an optional string lies in `[min, max]`.
pub fn opt_string_chars_within(s: &Option<String>, min: usize, max: usize) -> (res: bool)
    ensures
        res == opt_chars_within(
            match s {
                Some(t) => Some(t@),
                None => None,
            },
            min as nat,
            max as nat,
        ),
{
    match s {
        Some(t) => {
            let cs = chars_of(t.as_str());
            min <= cs.len() && cs.len() <= max
        },
        None => true,
    }
}

/// Whether `s` is `a` or `b`.
pub fn is_either(s: &str, a: &str, b: &str) -> (res: bool)
    ensures
        res == (s@ == a@ || s@ == b@),
{
    str_eq(s, a) || str_eq(s, b)
}

} // verus!
