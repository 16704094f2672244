//! Reading several posts at once.
use vstd::prelude::*;

use crate::response::ApiResponse;

verus! {

/// The posts to read.
#[derive(Debug, Clone, PartialEq)]
pub struct Params {
    pub posts: Vec<i64>,
}

/// A post of the batch that could not be read, and why.
#[derive(Debug, Clone, Copy, PartialEq, Eq)]
pub struct BatchError {
    pub post: i64,
    pub error: &'static str,
}

/// The posts that were found, in request order.
pub open spec fn found_spec<T>(results: Seq<(i64, Option<T>)>) -> Seq<T>
    decreases results.len(),
{
    if results.len() == 0 {
        Seq::<T>::empty()
    } else {
        let prev = found_spec(results.drop_last());
        match results.last().1 {
            Some(v) => prev.push(v),
            None => prev,
        }
    }
}

/// The ids of the posts that were not found, in request order.
pub open spec fn missing_spec<T>(results: Seq<(i64, Option<T>)>) -> Seq<i64>
    decreases results.len(),
{
    if results.len() == 0 {
        Seq::<i64>::empty()
    } else {
        let prev = missing_spec(results.drop_last());
        match results.last().1 {
            Some(_) => prev,
            None => prev.push(results.last().0),
        }
    }
}

/// The error list of a batch: none where no post is missing, else an error
/// `POST_DOES_NOT_EXIST` for each missing post, in request order.
pub open spec fn batch_errors_spec<T>(
    errors: Option<Vec<BatchError>>,
    results: Seq<(i64, Option<T>)>,
) -> bool {
    match errors {
        None => missing_spec(results).len() == 0,
        Some(errors) => {
            &&& missing_spec(results).len() > 0
            &&& errors@.map_values(|e: BatchError| e.post) == missing_spec(results)
            &&& forall|k: int|
                0 <= k < errors@.len() ==> #[trigger] errors@[k].error == "POST_DOES_NOT_EXIST"
        },
    }
}

/// Sorts the lookups of a batch `(post id, post if found)` into the posts
/// found and an error `POST_DOES_NOT_EXIST` for each one missing, both in
/// request order; there is no error list where none is missing.
pub fn sort_batch<T>(results: Vec<(i64, Option<T>)>) -> (res: (Vec<T>, Option<Vec<BatchError>>))
    ensures
        res.0@ == found_spec(results@),
        batch_errors_spec(res.1, results@),
{
    let ghost all = results@;
    let mut found: Vec<T> = Vec::new();
    let mut errors: Vec<BatchError> = Vec::new();
    let mut rest = results;
    let ghost n = all.len();
    while rest.len() > 0
        invariant
            rest@.len() <= n,
            n == all.len(),
            rest@ == all.skip(n - rest@.len()),
            found@ == found_spec(all.take(n - rest@.len())),
            errors@.map_values(|e: BatchError| e.post) == missing_spec(all.take(n - rest@.len())),
            forall|k: int|
                0 <= k < errors@.len() ==> #[trigger] errors@[k].error == "POST_DOES_NOT_EXIST",
        decreases rest@.len(),
    {
        let ghost i = n - rest@.len();
        let (post, item) = rest.remove(0);
        assert(all.take(i + 1).drop_last() =~= all.take(i));
        assert(all.take(i + 1).last() == all[i]);
        assert(all[i] == (post, item));
        assert(rest@ =~= all.skip(n - rest@.len()));
        let ghost before = errors@.map_values(|e: BatchError| e.post);
        match item {
            Some(v) => {
                found.push(v);
            },
            None => {
                errors.push(BatchError { post, error: "POST_DOES_NOT_EXIST" });
                assert(errors@.map_values(|e: BatchError| e.post) =~= before.push(post));
            },
        }
    }
    assert(all.take(n as int) =~= all);
    if errors.len() == 0 {
        (found, None)
    } else {
        (found, Some(errors))
    }
}

/// What a batch read answers: the posts found and the errors.
#[derive(Debug, PartialEq)]
pub struct Returns<T> {
    pub posts: Vec<T>,
    pub errors: Option<Vec<BatchError>>,
}

/// The answer to a batch read, from its lookups `(post id, post if found)`:
/// the posts found and the errors, with status 200; where no post was found,
/// the same data as the failure `BATCH_FAILED` with status 400.
pub fn batch_answer<T>(results: Vec<(i64, Option<T>)>) -> (res: ApiResponse<Returns<T>>)
    ensures
        res.data.data matches Some(r) && r.posts@ == found_spec(results@) && batch_errors_spec(
            r.errors,
            results@,
        ),
        found_spec(results@).len() == 0 ==> !res.data.success && res.data.error == Some(
            "BATCH_FAILED",
        ) && res.status == 400,
        found_spec(results@).len() > 0 ==> res.data.success && res.data.error is None
            && res.status == 200,
{
    let (posts, errors) = sort_batch(results);
    if posts.len() == 0 {
        ApiResponse::err(Some(Returns { posts, errors }), "BATCH_FAILED", 400)
    } else {
        ApiResponse::ok(Returns { posts, errors }, 200)
    }
}

} // verus!
