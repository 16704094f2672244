use sharinflame::endpoints::comments::get_comments::{reply_level, MAX_REPLY_DEPTH, REPLIES_PAGE_SIZE};
use sharinflame::endpoints::deletion::{delete_step, refusal_for_other, DeleteStep};
use sharinflame::endpoints::posts::batch_get_post::{batch_answer, BatchError, Returns};
use sharinflame::endpoints::posts_list::feed_page;
use sharinflame::endpoints::storage::upload_file::{
    context_access, may_upload_to_context, upload_target, UploadTarget,
};
use sharinflame::entities::FileContext;
use sharinflame::queries::{comments_query, PostsList};
use sharinflame::response::{AppError, FuncError};

#[test]
fn bad_cursor_is_refused_even_at_the_largest_limit() {
    let r = comments_query(1, Some("abc".into()), 2, None, None, i64::MAX);
    assert_eq!(r.unwrap_err(), "INCORRECT_CURSOR");
    let r = comments_query(1, Some("1,2".into()), 2, None, None, i64::MAX);
    assert_eq!(r.unwrap_err(), "INCORRECT_CURSOR");
}

#[test]
fn batch_with_some_posts_succeeds() {
    let r = batch_answer(vec![(1, Some("a")), (2, None), (3, Some("c"))]);
    assert!(r.data.success);
    assert_eq!(r.status, 200);
    assert_eq!(r.data.error, None);
    assert_eq!(
        r.data.data,
        Some(Returns {
            posts: vec!["a", "c"],
            errors: Some(vec![BatchError { post: 2, error: "POST_DOES_NOT_EXIST" }]),
        })
    );
}

#[test]
fn batch_without_posts_fails() {
    let r = batch_answer::<&str>(vec![(4, None)]);
    assert!(!r.data.success);
    assert_eq!(r.status, 400);
    assert_eq!(r.data.error, Some("BATCH_FAILED"));
    assert_eq!(r.data.data.unwrap().posts, Vec::<&str>::new());
    let empty = batch_answer::<&str>(Vec::new());
    assert_eq!(empty.data.error, Some("BATCH_FAILED"));
    assert_eq!(empty.data.data.unwrap().errors, None);
}

#[test]
fn empty_feed_page_means_no_more_posts() {
    let empty = PostsList { posts: Vec::new(), next_cursor: None };
    assert_eq!(feed_page(empty), Err(FuncError::NoMorePosts));
    let page = PostsList { posts: vec![5, 4], next_cursor: Some("0,4".into()) };
    assert_eq!(feed_page(page.clone()), Ok(page));
    assert_eq!(AppError::from(FuncError::NoMorePosts).status_and_message(), (400, "NO_MORE_POSTS"));
}

#[test]
fn upload_targets() {
    assert_eq!(upload_target("context", Some(9)), Ok(UploadTarget::Context(9)));
    assert_eq!(upload_target("context", None), Err(FuncError::IncorrectData));
    assert_eq!(upload_target("avatar", Some(9)), Ok(UploadTarget::NewContext));
    assert_eq!(upload_target("banner", None), Ok(UploadTarget::NewContext));
}

fn context(user_id: i64, created_at: i64) -> FileContext {
    FileContext {
        context_id: 1,
        user_id,
        objects: Vec::new(),
        reference_count: 0,
        allowed_count: 5,
        created_at,
        kind: "post_image".into(),
    }
}

#[test]
fn context_access_decisions() {
    assert_eq!(context_access(&None, 7, 0), Err(FuncError::ContextNotFound));
    assert_eq!(context_access(&Some(context(7, 10_000)), 7, 12_000), Ok(()));
    assert_eq!(context_access(&Some(context(8, 10_000)), 7, 12_000), Err(FuncError::Forbidden));
    assert_eq!(context_access(&Some(context(7, 10_000)), 7, 13_601), Err(FuncError::Forbidden));
    assert_eq!(
        AppError::from(FuncError::ContextNotFound).status_and_message(),
        (404, "CONTEXT_NOT_FOUND")
    );
    assert_eq!(AppError::from(FuncError::Forbidden).status_and_message(), (403, "FORBIDDEN"));
}

#[test]
fn delete_decisions() {
    assert_eq!(
        delete_step(None, 3, FuncError::CommentDoesNotExist),
        DeleteStep::Refuse(FuncError::CommentDoesNotExist)
    );
    assert_eq!(delete_step(Some(3), 3, FuncError::PostDoesNotExist), DeleteStep::Delete);
    assert_eq!(delete_step(Some(4), 3, FuncError::PostDoesNotExist), DeleteStep::CheckPermissions);
    assert_eq!(refusal_for_other(true), FuncError::NotImplemented);
    assert_eq!(refusal_for_other(false), FuncError::Forbidden);
    assert_eq!(
        AppError::from(FuncError::CommentDoesNotExist).status_and_message(),
        (404, "COMMENT_DOES_NOT_EXIST")
    );
    assert_eq!(
        AppError::from(FuncError::NotImplemented).status_and_message(),
        (500, "NOT_IMPLEMENTED")
    );
}

#[test]
fn reply_levels() {
    assert_eq!(reply_level(0), Some((REPLIES_PAGE_SIZE, 1)));
    assert_eq!(reply_level(MAX_REPLY_DEPTH), Some((3, 4)));
    assert_eq!(reply_level(MAX_REPLY_DEPTH + 1), None);
}

#[test]
fn strangers_are_refused_before_the_clock_matters() {
    assert!(!may_upload_to_context(8, 7, 0, 0));
    assert_eq!(context_access(&Some(context(8, 0)), 7, 0), Err(FuncError::Forbidden));
}
