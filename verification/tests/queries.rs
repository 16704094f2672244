use sharinflame::queries::{
    append_plan, comments_page, comments_query, contexts_for_deletion_query, posts_page,
    posts_query, profile_update_query, PostsMode, SqlParam, UserProfileUpdate,
    COMMENTS_BASE_SQL, CONTEXTS_FOR_DELETION_BY_SERVER_SQL, CONTEXTS_FOR_DELETION_SQL,
};

#[test]
fn top_level_comments_query() {
    let q = comments_query(10, None, 20, None, None, 20).unwrap();
    let expected = format!(
        "{} WHERE parent_comment_id IS NULL\n            ORDER BY is_user_comment DESC, popularity_score DESC,\n                    comment_id::bigint DESC\n        LIMIT 3",
        COMMENTS_BASE_SQL
    );
    assert_eq!(q.sql, expected);
    assert_eq!(q.params, vec![SqlParam::BigInt(10), SqlParam::BigInt(20), SqlParam::BigInt(21)]);
}

#[test]
fn replies_after_cursor_of_updates() {
    let q = comments_query(10, Some("1,50,99".into()), 20, Some("update".into()), Some(7), 3).unwrap();
    assert!(q.sql.starts_with(COMMENTS_BASE_SQL));
    assert!(q.sql.contains("AND comment_id < $5))\n         AND parent_comment_id = $6"));
    assert!(q.sql.contains("AND type = $7\n"));
    assert!(q.sql.ends_with("ORDER BY comment_id::bigint\n        LIMIT 8"));
    assert_eq!(
        q.params,
        vec![
            SqlParam::BigInt(10),
            SqlParam::BigInt(20),
            SqlParam::BigInt(1),
            SqlParam::BigInt(50),
            SqlParam::BigInt(99),
            SqlParam::BigInt(7),
            SqlParam::Text("update".into()),
            SqlParam::BigInt(4),
        ]
    );
}

#[test]
fn replies_without_cursor() {
    let q = comments_query(1, None, 2, Some("comment".into()), Some(5), 3).unwrap();
    assert!(q.sql.contains(" WHERE parent_comment_id = $3"));
    assert!(q.sql.contains("AND type = $4"));
    assert!(q.sql.ends_with("LIMIT 5"));
}

#[test]
fn unreadable_comment_cursor() {
    assert_eq!(comments_query(1, Some("x".into()), 2, None, None, 3).unwrap_err(), "INCORRECT_CURSOR");
}

#[test]
fn comment_page_drops_last_row() {
    let page = comments_page(vec![(1, 10, 100), (0, 5, 99), (0, 4, 98)], 2);
    assert!(page.has_more);
    assert_eq!(page.comments, vec![100, 99]);
    assert_eq!(page.next_cursor, Some("0,5,99".to_string()));
    assert_eq!(sharinflame::format::parse_cursor("0,5,99"), Some((0, 5, 99)));
    let small = comments_page(vec![(0, -3, 7)], 5);
    assert!(!small.has_more);
    assert!(small.comments.is_empty());
    assert_eq!(small.next_cursor, None);
}

#[test]
fn feed_queries() {
    let q = posts_query(&PostsMode::Popular, 9, 50, Some("12,34".into()), true).unwrap();
    assert!(q.sql.contains("SELECT post_id, popularity_score"));
    assert!(q.sql.contains("user_post_views"));
    assert!(q.sql.ends_with(" ORDER BY popularity_score DESC, post_id DESC LIMIT $1"));
    assert_eq!(
        q.params,
        vec![SqlParam::BigInt(50), SqlParam::BigInt(9), SqlParam::BigInt(12), SqlParam::BigInt(34)]
    );
    let n = posts_query(&PostsMode::New, 9, 10, Some("77".into()), false).unwrap();
    assert!(n.sql.ends_with(" AND post_id < $3 ORDER BY post_id DESC LIMIT $1"));
    assert_eq!(n.params, vec![SqlParam::BigInt(10), SqlParam::BigInt(9), SqlParam::BigInt(77)]);
    let f = posts_query(&PostsMode::ByFollowing, 9, 10, None, false).unwrap();
    assert!(f.sql.contains("followed.followed_to = posts.user_id"));
    assert_eq!(posts_query(&PostsMode::New, 9, 10, Some(" 77".into()), false).unwrap_err(), "INCORRECT_CURSOR");
    assert_eq!(posts_query(&PostsMode::Popular, 9, 10, Some("1".into()), false).unwrap_err(), "INCORRECT_CURSOR");
}

#[test]
fn feed_pages() {
    let p = posts_page(&PostsMode::Popular, vec![(30, 5), (20, 4)]);
    assert_eq!(p.posts, vec![5, 4]);
    assert_eq!(p.next_cursor, Some("20,4".to_string()));
    let n = posts_page(&PostsMode::New, vec![(0, 5), (0, 4)]);
    assert_eq!(n.next_cursor, Some("4".to_string()));
    assert_eq!(posts_page(&PostsMode::ByFollowing, vec![]).next_cursor, None);
}

#[test]
fn profile_upsert() {
    let u = UserProfileUpdate {
        display_name: Some("Ann".into()),
        bio: Some("hi".into()),
        ..Default::default()
    };
    let q = profile_update_query(7, u).unwrap();
    assert_eq!(
        q.sql,
        "INSERT INTO user_profiles (user_id, display_name, bio) VALUES ($1, $2, $3) ON CONFLICT (user_id) DO UPDATE SET display_name = EXCLUDED.display_name, bio = EXCLUDED.bio"
    );
    assert_eq!(
        q.params,
        vec![SqlParam::BigInt(7), SqlParam::Text("Ann".into()), SqlParam::Text("hi".into())]
    );
    assert_eq!(profile_update_query(7, UserProfileUpdate::default()), None);
    let all = UserProfileUpdate {
        display_name: Some("a".into()),
        avatar_context_id: Some(1),
        banner_context_id: Some(2),
        bio: Some("b".into()),
        languages: Some(vec!["en".into()]),
    };
    let q = profile_update_query(1, all).unwrap();
    assert!(q.sql.contains("VALUES ($1, $2, $3, $4, $5, $6)"));
    assert_eq!(q.params.len(), 6);
    assert_eq!(q.params[5], SqlParam::TextArray(vec!["en".into()]));
}

#[test]
fn appending_files() {
    assert_eq!(append_plan(None, "x"), Err("CONTEXT_NOT_FOUND"));
    assert_eq!(append_plan(Some((vec![], 0)), "x"), Err("MAX_COUNT_EXCEED"));
    assert_eq!(
        append_plan(Some((vec!["a".into()], 2)), "b"),
        Ok((vec!["a".to_string(), "b".to_string()], 1))
    );
}

#[test]
fn contexts_to_clean_up() {
    let q = contexts_for_deletion_query(true, 10, 2, 4);
    assert_eq!(q.sql, CONTEXTS_FOR_DELETION_BY_SERVER_SQL);
    assert_eq!(q.params, vec![SqlParam::BigInt(2), SqlParam::BigInt(4), SqlParam::BigInt(10)]);
    let q = contexts_for_deletion_query(false, 10, 2, 4);
    assert_eq!(q.sql, CONTEXTS_FOR_DELETION_SQL);
    assert_eq!(q.params, vec![SqlParam::Int(10)]);
}
