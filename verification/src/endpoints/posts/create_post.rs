//! Creating a post.
use vstd::prelude::*;

use crate::text::chars_of;
use crate::validate::byte_len;

verus! {

/// Flags or tags are valid: at most 4, each of 1 to 22 bytes.
pub open spec fn valid_flags_or_tags(values: Seq<Seq<char>>) -> bool {
    values.len() <= 4 && forall|i: int|
        0 <= i < values.len() ==> 1 <= byte_len(#[trigger] values[i]) <= 22
}

/// The error code for the first value from position `i` on that is out of
/// bounds: `value_too_long` over 22 bytes, `value_too_small` for an empty one.
pub open spec fn value_error_from(values: Seq<Seq<char>>, i: int) -> &'static str
    decreases values.len() - i,
{
    if i >= values.len() || i < 0 {
        "value_too_small"
    } else if byte_len(values[i]) > 22 {
        "value_too_long"
    } else if byte_len(values[i]) == 0 {
        "value_too_small"
    } else {
        value_error_from(values, i + 1)
    }
}

/// The error code for flags or tags: `too_many_values` for more than 4,
/// else the error of the first value out of bounds.
pub open spec fn flags_or_tags_error(values: Seq<Seq<char>>) -> &'static str {
    if values.len() > 4 {
        "too_many_values"
    } else {
        value_error_from(values, 0)
    }
}

/// Checks flags or tags.
pub fn validate_flags_or_tags(values: &Vec<String>) -> (res: Result<(), &'static str>)
    ensures
        res is Ok <==> valid_flags_or_tags(values@.map_values(|s: String| s@)),
        res matches Err(e) ==> e == flags_or_tags_error(values@.map_values(|s: String| s@)),
{
    let ghost vs = values@.map_values(|s: String| s@);
    if values.len() > 4 {
        return Err("too_many_values");
    }
    for i in 0..values.len()
        invariant
            vs == values@.map_values(|s: String| s@),
            values@.len() <= 4,
            forall|j: int| 0 <= j < i ==> 1 <= byte_len(#[trigger] vs[j]) <= 22,
            value_error_from(vs, 0) == value_error_from(vs, i as int),
    {
        let n = values[i].as_str().as_bytes().len();
        assert(vs[i as int] == values@[i as int]@);
        if n > 22 || n == 0 {
            if n > 22 {
                return Err("value_too_long");
            } else {
                return Err("value_too_small");
            }
        }
    }
    Ok(())
}

/// The request to create a post.
pub struct Payload {
    /// The text, at most 16384 characters.
    pub content: String,
    /// Flags, where given.
    pub flags: Option<Vec<String>>,
    /// Tags, where given.
    pub tags: Option<Vec<String>>,
    /// The file context holding the post's media, at least 1, where given.
    pub file_context_id: Option<i64>,
}

/// Optional flags or tags are absent or valid.
pub open spec fn valid_opt_values(v: Option<Vec<String>>) -> bool {
    match v {
        Some(vs) => valid_flags_or_tags(vs@.map_values(|s: String| s@)),
        None => true,
    }
}

fn opt_values_valid(v: &Option<Vec<String>>) -> (res: bool)
    ensures
        res == valid_opt_values(*v),
{
    match v {
        Some(vs) => validate_flags_or_tags(vs).is_ok(),
        None => true,
    }
}

impl Payload {
    /// The request is valid.
    pub open spec fn valid(self) -> bool {
        &&& self.content@.len() <= 16384
        &&& valid_opt_values(self.flags)
        &&& valid_opt_values(self.tags)
        &&& (self.file_context_id matches Some(id) ==> id >= 1)
    }

    /// Whether the request is valid.
    pub fn validate(&self) -> (res: bool)
        ensures
            res == self.valid(),
    {
        let n = chars_of(self.content.as_str()).len();
        let id_ok = match self.file_context_id {
            Some(id) => id >= 1,
            None => true,
        };
        n <= 16384 && opt_values_valid(&self.flags) && opt_values_valid(&self.tags) && id_ok
    }
}

} // verus!
