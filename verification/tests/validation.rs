use sharinflame::endpoints::comments::{create_comment, get_comments, validate_type};
use sharinflame::endpoints::posts::batch_get_post::{sort_batch, BatchError};
use sharinflame::endpoints::posts::{create_post, view_posts};
use sharinflame::endpoints::posts_list::DefaultParams;
use sharinflame::endpoints::storage::{create_context, max_count, size_limit, upload_file};
use sharinflame::endpoints::users::patch_me;
use sharinflame::validate::validate_username;

#[test]
fn usernames() {
    assert_eq!(validate_username("john.doe_1"), Ok(()));
    assert_eq!(validate_username(""), Err("invalid_username"));
    assert_eq!(validate_username("john doe"), Err("invalid_username"));
    assert_eq!(validate_username("john..doe"), Err("invalid_username"));
    assert_eq!(validate_username("john__doe"), Err("invalid_username"));
    assert_eq!(validate_username("jöhn"), Err("invalid_username"));
    assert_eq!(validate_username("a._b"), Ok(()));
}

#[test]
fn comment_types() {
    assert_eq!(validate_type("comment"), Ok(()));
    assert_eq!(validate_type("update"), Ok(()));
    assert_eq!(validate_type("other"), Err("invalid_type"));
}

#[test]
fn comment_payloads() {
    let ok = create_comment::Payload { content: "x".repeat(1024), kind: None, parent_id: None };
    assert!(ok.validate());
    let long = create_comment::Payload { content: "x".repeat(1025), kind: None, parent_id: None };
    assert!(!long.validate());
    let bad = create_comment::Payload { content: "x".into(), kind: Some("z".into()), parent_id: None };
    assert!(!bad.validate());
    let q = get_comments::Payload { cursor: Some("c".repeat(257)), kind: None, parent_id: None };
    assert!(!q.validate());
    let q = get_comments::Payload { cursor: Some("".into()), kind: Some("update".into()), parent_id: Some(1) };
    assert!(q.validate());
}

#[test]
fn flags_and_tags() {
    let v = |xs: &[&str]| xs.iter().map(|s| s.to_string()).collect::<Vec<_>>();
    assert_eq!(create_post::validate_flags_or_tags(&v(&["a", "b"])), Ok(()));
    assert_eq!(create_post::validate_flags_or_tags(&v(&["a", "b", "c", "d", "e"])), Err("too_many_values"));
    assert_eq!(create_post::validate_flags_or_tags(&v(&["a", &"x".repeat(23)])), Err("value_too_long"));
    assert_eq!(create_post::validate_flags_or_tags(&v(&["", &"x".repeat(23)])), Err("value_too_small"));
    assert_eq!(create_post::validate_flags_or_tags(&v(&["ééééééééééé", "é"])), Ok(()));
    assert_eq!(create_post::validate_flags_or_tags(&v(&["éééééééééééé"])), Err("value_too_long"));
}

#[test]
fn post_payloads() {
    let p = create_post::Payload { content: "hi".into(), flags: None, tags: Some(vec!["t".into()]), file_context_id: Some(1) };
    assert!(p.validate());
    let p = create_post::Payload { content: "hi".into(), flags: None, tags: None, file_context_id: Some(0) };
    assert!(!p.validate());
    assert!(view_posts::Payload { posts: vec![1] }.validate());
    assert!(!view_posts::Payload { posts: vec![] }.validate());
    assert!(!view_posts::Payload { posts: vec![1; 51] }.validate());
}

#[test]
fn feed_params() {
    let p = DefaultParams { hide_viewed: None, cursor: None, limit: None };
    assert!(p.validate());
    assert_eq!(p.effective_limit(), 50);
    assert!(!p.effective_hide_viewed());
    let p = DefaultParams { hide_viewed: Some(true), cursor: Some("".into()), limit: Some(5) };
    assert!(!p.validate());
    assert_eq!(p.effective_limit(), 5);
    assert!(p.effective_hide_viewed());
    assert!(!DefaultParams { hide_viewed: None, cursor: None, limit: Some(1001) }.validate());
}

#[test]
fn storage_types_and_limits() {
    assert_eq!(create_context::validate_type("post_video"), Ok(()));
    assert_eq!(create_context::validate_type("avatar"), Err("wrong_type"));
    assert!(create_context::Payload { kind: "post_image".into() }.validate());
    assert_eq!(upload_file::validate_type("context"), Ok(()));
    assert_eq!(upload_file::validate_type("post_image"), Err("wrong_type"));
    assert_eq!(size_limit("avatar"), Some(2));
    assert_eq!(size_limit("banner"), Some(8));
    assert_eq!(size_limit("post_video"), Some(15));
    assert_eq!(size_limit("post_image"), Some(10));
    assert_eq!(size_limit("other"), None);
    assert_eq!(max_count("post_video"), Some(1));
    assert_eq!(max_count("post_image"), Some(5));
    assert_eq!(max_count("avatar"), None);
    assert_eq!(create_context::context_expiry(100), 1900);
}

#[test]
fn upload_paths_and_access() {
    assert_eq!(upload_file::private_file_name(5, "a b/c.png"), "private/5/a b%2Fc.png");
    assert_eq!(upload_file::private_file_name(5, "é\n"), "private/5/%C3%A9%0A");
    assert_eq!(upload_file::public_file_name("avatar", 3, 9), "public/avatars/3/9.webp");
    assert_eq!(upload_file::public_file_name("banner", 3, 9), "public/banners/3/9.webp");
    assert!(upload_file::may_upload_to_context(1, 1, 10_000, 12_000));
    assert!(!upload_file::may_upload_to_context(1, 2, 10_000, 12_000));
    assert!(!upload_file::may_upload_to_context(1, 1, 10_000, 13_601));
    assert!(upload_file::may_upload_to_context(1, 1, 10_000, 13_600));
    let p = upload_file::Payload { context_id: None, kind: "avatar".into(), file_name: "".into() };
    assert!(!p.validate());
}

#[test]
fn profile_payloads() {
    let v = |xs: &[&str]| xs.iter().map(|s| s.to_string()).collect::<Vec<_>>();
    assert_eq!(patch_me::validate_languages(&v(&["en", "fr"])), Ok(()));
    assert_eq!(patch_me::validate_languages(&v(&["a"; 9])), Err("too_many_languages"));
    assert_eq!(patch_me::validate_languages(&v(&[&"x".repeat(17)])), Err("language_too_long"));
    let p = patch_me::Payload {
        display_name: Some("x".repeat(16)),
        avatar_context_id: Some(1),
        banner_context_id: None,
        bio: None,
        languages: Some(v(&["en"])),
    };
    assert!(p.validate());
    let u = p.into_update();
    assert_eq!(u.display_name, Some("x".repeat(16)));
    assert_eq!(u.avatar_context_id, Some(1));
    let p = patch_me::Payload { display_name: Some("x".repeat(17)), avatar_context_id: None, banner_context_id: None, bio: None, languages: None };
    assert!(!p.validate());
}

#[test]
fn batches() {
    let (found, errors) = sort_batch(vec![(1, Some("a")), (2, None), (3, Some("c")), (4, None)]);
    assert_eq!(found, vec!["a", "c"]);
    assert_eq!(
        errors,
        Some(vec![
            BatchError { post: 2, error: "POST_DOES_NOT_EXIST" },
            BatchError { post: 4, error: "POST_DOES_NOT_EXIST" }
        ])
    );
    let (found, errors) = sort_batch::<u8>(vec![(1, Some(1))]);
    assert_eq!(found, vec![1]);
    assert_eq!(errors, None);
}
