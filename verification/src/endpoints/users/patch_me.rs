//! Changing one's own profile.
use vstd::prelude::*;

use crate::queries::UserProfileUpdate;
use crate::validate::{byte_len, opt_chars_within, opt_string_chars_within};

verus! {

/// Languages are valid: at most 8, each at most 16 bytes.
pub open spec fn valid_languages(langs: Seq<Seq<char>>) -> bool {
    langs.len() <= 8 && forall|i: int| 0 <= i < langs.len() ==> byte_len(#[trigger] langs[i]) <= 16
}

/// Checks languages; the error code is `too_many_languages` for more than
/// 8, else `language_too_long`.
pub fn validate_languages(langs: &Vec<String>) -> (res: Result<(), &'static str>)
    ensures
        res is Ok <==> valid_languages(langs@.map_values(|s: String| s@)),
        res matches Err(e) ==> e == if langs@.len() > 8 {
            "too_many_languages"
        } else {
            "language_too_long"
        },
{
    let ghost ls = langs@.map_values(|s: String| s@);
    if langs.len() > 8 {
        return Err("too_many_languages");
    }
    for i in 0..langs.len()
        invariant
            ls == langs@.map_values(|s: String| s@),
            langs@.len() <= 8,
            forall|j: int| 0 <= j < i ==> byte_len(#[trigger] ls[j]) <= 16,
    {
        assert(ls[i as int] == langs@[i as int]@);
        if langs[i].as_str().as_bytes().len() > 16 {
            return Err("language_too_long");
        }
    }
    Ok(())
}

/// The request to change one's profile.
pub struct Payload {
    /// At most 16 characters.
    pub display_name: Option<String>,
    /// At least 1.
    pub avatar_context_id: Option<i64>,
    /// At least 1.
    pub banner_context_id: Option<i64>,
    /// At most 512 characters.
    pub bio: Option<String>,
    pub languages: Option<Vec<String>>,
}

/// The view of an optional string.
pub open spec fn opt_view(o: Option<String>) -> Option<Seq<char>> {
    match o {
        Some(s) => Some(s@),
        None => None,
    }
}

impl Payload {
    /// The request is valid.
    pub open spec fn valid(self) -> bool {
        &&& opt_chars_within(opt_view(self.display_name), 0, 16)
        &&& (self.avatar_context_id matches Some(id) ==> id >= 1)
        &&& (self.banner_context_id matches Some(id) ==> id >= 1)
        &&& opt_chars_within(opt_view(self.bio), 0, 512)
        &&& (self.languages matches Some(l) ==> valid_languages(l@.map_values(|s: String| s@)))
    }

    /// Whether the request is valid.
    pub fn validate(&self) -> (res: bool)
        ensures
            res == self.valid(),
    {
        let avatar_ok = match self.avatar_context_id {
            Some(id) => id >= 1,
            None => true,
        };
        let banner_ok = match self.banner_context_id {
            Some(id) => id >= 1,
            None => true,
        };
        let langs_ok = match &self.languages {
            Some(l) => validate_languages(l).is_ok(),
            None => true,
        };
        opt_string_chars_within(&self.display_name, 0, 16) && avatar_ok && banner_ok
            && opt_string_chars_within(&self.bio, 0, 512) && langs_ok
    }

    /// The profile change that the request asks for.
    pub fn into_update(self) -> (res: UserProfileUpdate)
        ensures
            res.display_name == self.display_name,
            res.avatar_context_id == self.avatar_context_id,
            res.banner_context_id == self.banner_context_id,
            res.bio == self.bio,
            res.languages == self.languages,
    {
        UserProfileUpdate {
            display_name: self.display_name,
            avatar_context_id: self.avatar_context_id,
            banner_context_id: self.banner_context_id,
            bio: self.bio,
            languages: self.languages,
        }
    }
}

} // verus!
