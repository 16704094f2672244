//! The SQL queries of the feeds, comments, profiles and file contexts, built
//! from their parameters, and the pages made of their rows.
use vstd::prelude::*;

use crate::format::{parse_cursor, parse_prefix_spec, parse_tuple};
use crate::text::{
    chars_of, contains_spec, i64_to_decimal, int_to_decimal, lacks, lemma_contains_prefix, occurs_at,
    lemma_contains_within, lemma_decimal_digits, lemma_occurs_within, lemma_parse_i64_decimal,
    lemma_split_concat, lemma_split_no_sep, nat_to_decimal, parse_i64, parse_i64_spec, push_char,
    push_decimal, split_spec, str_eq, trim_spec,
};

verus! {

/// The ranked comments of a post, `$1` the post and `$2` the reader.
pub const COMMENTS_BASE_SQL: &'static str = "
        WITH ranked_comments AS (
            SELECT comment_id,
                   popularity_score,
                   CASE WHEN user_id = $2 THEN 1 ELSE 0 END AS is_user_comment
            FROM comments
            WHERE post_id = $1
        )

        SELECT * FROM ranked_comments
    ";

/// Comments after a cursor: `$3` is-user flag, `$4` popularity, `$5` comment id.
pub const COMMENTS_CURSOR_SQL: &'static str = "
            WHERE (is_user_comment < $3 OR
                   (is_user_comment = $3 AND popularity_score < $4) OR
                   (is_user_comment = $3 AND popularity_score = $4
                    AND comment_id < $5))
        ";

/// Replies to a parent comment, after a cursor.
pub const COMMENTS_AFTER_CURSOR_PARENT_SQL: &'static str = " AND parent_comment_id = $6";

/// Top-level comments, after a cursor.
pub const COMMENTS_AFTER_CURSOR_TOP_SQL: &'static str = " AND parent_comment_id IS NULL";

/// Replies to a parent comment, without a cursor.
pub const COMMENTS_PARENT_SQL: &'static str = " WHERE parent_comment_id = $3";

/// Top-level comments, without a cursor.
pub const COMMENTS_TOP_SQL: &'static str = " WHERE parent_comment_id IS NULL";

/// The filter on the comment type, before its placeholder number.
pub const COMMENTS_TYPE_SQL_HEAD: &'static str = "
            AND type = $";

/// The filter on the comment type, after its placeholder number.
pub const COMMENTS_TYPE_SQL_TAIL: &'static str = "
        ";

/// Ordering of plain comments: the reader's first, then by popularity and id.
pub const COMMENTS_ORDER_RANKED_SQL: &'static str = "
            ORDER BY is_user_comment DESC, popularity_score DESC,
                    comment_id::bigint DESC
        ";

/// Ordering of updates: by id.
pub const COMMENTS_ORDER_UPDATES_SQL: &'static str = "
            ORDER BY comment_id::bigint
        ";

/// Popular posts of others, `$2` the reader.
pub const POSTS_POPULAR_SQL: &'static str = "
            SELECT post_id, popularity_score
            FROM posts
            WHERE is_deleted = FALSE AND user_id != $2
            ";

/// New posts of others, `$2` the reader.
pub const POSTS_NEW_SQL: &'static str = "
            SELECT post_id
            FROM posts
            WHERE is_deleted = FALSE AND user_id != $2
            ";

/// Posts of the users that `$2` follows.
pub const POSTS_FOLLOWING_SQL: &'static str = "
            SELECT post_id
            FROM posts
            WHERE is_deleted = FALSE AND EXISTS (
                SELECT 1
                FROM followed
                WHERE followed.user_id = $2
                AND followed.followed_to = posts.user_id
            )
            ";

/// Leaves out the posts that `$2` has viewed.
pub const POSTS_HIDE_VIEWED_SQL: &'static str = "
            AND NOT EXISTS (
                SELECT 1
                FROM user_post_views
                WHERE user_post_views.user_id = $2
                AND user_post_views.post_id = posts.post_id
            )
        ";

/// Popular posts after a cursor: `$3` popularity, `$4` post id.
pub const POSTS_POPULAR_CURSOR_SQL: &'static str = "
                AND (
                    (popularity_score) < $3 OR
                    ((popularity_score) = $3 AND post_id < $4)
                )
            ";

/// Posts after a cursor: `$3` post id.
pub const POSTS_ID_CURSOR_SQL: &'static str = " AND post_id < $3";

/// Ordering of popular posts, `$1` the limit.
pub const POSTS_ORDER_POPULAR_SQL: &'static str = " ORDER BY popularity_score DESC, post_id DESC LIMIT $1";

/// Ordering of new posts, `$1` the limit.
pub const POSTS_ORDER_NEW_SQL: &'static str = " ORDER BY post_id DESC LIMIT $1";

/// Unreferenced file contexts older than 30 minutes that this server cleans up: `$1` server id, `$2` number of servers, `$3` limit.
pub const CONTEXTS_FOR_DELETION_BY_SERVER_SQL: &'static str = "
                SELECT context_id, user_id, objects, reference_count, allowed_count,
                       EXTRACT(EPOCH FROM created_at)::bigint as created_at, type
                FROM files
                WHERE reference_count = 0
                    AND created_at < NOW() - INTERVAL '30 minutes'
                    AND (context_id::bigint % $2) = $1  -- server
                LIMIT $3
                ";

/// Unreferenced file contexts older than 30 minutes: `$1` limit.
pub const CONTEXTS_FOR_DELETION_SQL: &'static str = "
                SELECT context_id, user_id, objects, reference_count, allowed_count,
                       EXTRACT(EPOCH FROM created_at)::bigint as created_at, type
                FROM files
                WHERE reference_count = 0
                    AND created_at < NOW() - INTERVAL '30 minutes'
                LIMIT $1
                ";



/// A parameter of a query.
#[derive(Debug, Clone, PartialEq)]
pub enum SqlParam {
    Int(i32),
    BigInt(i64),
    Text(String),
    TextArray(Vec<String>),
}

/// The value of a query parameter.
pub enum SqlParamModel {
    Int(i32),
    BigInt(i64),
    Text(Seq<char>),
    TextArray(Seq<Seq<char>>),
}

impl View for SqlParam {
    type V = SqlParamModel;

    open spec fn view(&self) -> SqlParamModel {
        match self {
            SqlParam::Int(v) => SqlParamModel::Int(*v),
            SqlParam::BigInt(v) => SqlParamModel::BigInt(*v),
            SqlParam::Text(t) => SqlParamModel::Text(t@),
            SqlParam::TextArray(v) => SqlParamModel::TextArray(v@.map_values(|s: String| s@)),
        }
    }
}

/// A query: its SQL text and its parameters `$1`, `$2`, ... in order.
#[derive(Debug, Clone, PartialEq)]
pub struct SqlQuery {
    pub sql: String,
    pub params: Vec<SqlParam>,
}

/// The values of query parameters.
pub open spec fn params_view(v: Seq<SqlParam>) -> Seq<SqlParamModel> {
    v.map_values(|p: SqlParam| p@)
}

/// The view of a query.
pub open spec fn query_view(q: SqlQuery) -> (Seq<char>, Seq<SqlParamModel>) {
    (q.sql@, params_view(q.params@))
}

/// The view of an optional string.
pub open spec fn opt_string_view(o: Option<String>) -> Option<Seq<char>> {
    match o {
        Some(s) => Some(s@),
        None => None,
    }
}

fn push_param(params: &mut Vec<SqlParam>, p: SqlParam)
    ensures
        params_view(final(params)@) == params_view(old(params)@).push(p@),
{
    params.push(p);
    assert(params_view(params@) =~= params_view(old(params)@).push(p@));
}

// ---------------------------------------------------------------------------
// Comments
// ---------------------------------------------------------------------------

/// The comments query, or the error for an unreadable cursor: comments of
/// `post_id` ranked for `user_id`, after the cursor where one is given, the
/// replies to `parent_id` or the top-level comments, of the given type, and
/// one more than `limit`. The limit goes in as the last parameter, while the
/// text ends in `LIMIT` and the number of that parameter.
pub open spec fn comments_query_spec(
    post_id: i64,
    cursor: Option<Seq<char>>,
    user_id: i64,
    comment_type: Option<Seq<char>>,
    parent_id: Option<i64>,
    limit: i64,
) -> Result<(Seq<char>, Seq<SqlParamModel>), &'static str> {
    let p0 = seq![SqlParamModel::BigInt(post_id), SqlParamModel::BigInt(user_id)];
    let base = COMMENTS_BASE_SQL@;
    let filtered: Option<(Seq<char>, Seq<SqlParamModel>)> = match cursor {
        Some(c) => match parse_prefix_spec(c, 3) {
            None => None,
            Some(v) => {
                let sql = base + COMMENTS_CURSOR_SQL@;
                let ps = p0 + seq![
                    SqlParamModel::BigInt(v[0]),
                    SqlParamModel::BigInt(v[1]),
                    SqlParamModel::BigInt(v[2]),
                ];
                match parent_id {
                    Some(p) => Some(
                        (sql + COMMENTS_AFTER_CURSOR_PARENT_SQL@, ps.push(SqlParamModel::BigInt(p))),
                    ),
                    None => Some((sql + COMMENTS_AFTER_CURSOR_TOP_SQL@, ps)),
                }
            },
        },
        None => match parent_id {
            Some(p) => Some((base + COMMENTS_PARENT_SQL@, p0.push(SqlParamModel::BigInt(p)))),
            None => Some((base + COMMENTS_TOP_SQL@, p0)),
        },
    };
    match filtered {
        None => Err("INCORRECT_CURSOR"),
        Some((sql, ps)) => {
            let (sql2, ps2) = match comment_type {
                Some(t) => (
                    sql + COMMENTS_TYPE_SQL_HEAD@ + nat_to_decimal(ps.len() + 1)
                        + COMMENTS_TYPE_SQL_TAIL@,
                    ps.push(SqlParamModel::Text(t)),
                ),
                None => (sql, ps),
            };
            let sql3 = if comment_type is None || comment_type == Some("comment"@) {
                sql2 + COMMENTS_ORDER_RANKED_SQL@
            } else if comment_type == Some("update"@) {
                sql2 + COMMENTS_ORDER_UPDATES_SQL@
            } else {
                sql2
            };
            Ok(
                (
                    sql3 + "LIMIT "@ + nat_to_decimal(ps2.len() + 1),
                    ps2.push(SqlParamModel::BigInt((limit + 1) as i64)),
                ),
            )
        },
    }
}

/// The view of a query result.
pub open spec fn query_result_view(r: Result<SqlQuery, &'static str>) -> Result<
    (Seq<char>, Seq<SqlParamModel>),
    &'static str,
> {
    match r {
        Ok(q) => Ok(query_view(q)),
        Err(e) => Err(e),
    }
}

/// The comments query for the request's parameters.
pub fn comments_query(
    post_id: i64,
    cursor: Option<String>,
    user_id: i64,
    comment_type: Option<String>,
    parent_id: Option<i64>,
    limit: i64,
) -> (res: Result<SqlQuery, &'static str>)
    requires
        (opt_string_view(cursor) matches Some(c) && parse_prefix_spec(c, 3) is None) || limit
            < i64::MAX,
    ensures
        query_result_view(res) == comments_query_spec(
            post_id,
            opt_string_view(cursor),
            user_id,
            opt_string_view(comment_type),
            parent_id,
            limit,
        ),
{
    let mut params: Vec<SqlParam> = Vec::new();
    push_param(&mut params, SqlParam::BigInt(post_id));
    push_param(&mut params, SqlParam::BigInt(user_id));
    assert(params_view(params@) =~= seq![
        SqlParamModel::BigInt(post_id),
        SqlParamModel::BigInt(user_id),
    ]);
    let mut sql = String::from_str(COMMENTS_BASE_SQL);
    match cursor {
        Some(c) => {
            let (i_u, ps, ci) = match parse_cursor(c.as_str()) {
                Some(t) => t,
                None => {
                    return Err("INCORRECT_CURSOR");
                },
            };
            sql.append(COMMENTS_CURSOR_SQL);
            let ghost p0 = params_view(params@);
            push_param(&mut params, SqlParam::BigInt(i_u));
            push_param(&mut params, SqlParam::BigInt(ps));
            push_param(&mut params, SqlParam::BigInt(ci));
            assert(params_view(params@) =~= p0 + seq![
                SqlParamModel::BigInt(i_u),
                SqlParamModel::BigInt(ps),
                SqlParamModel::BigInt(ci),
            ]);
            match parent_id {
                Some(p) => {
                    sql.append(COMMENTS_AFTER_CURSOR_PARENT_SQL);
                    push_param(&mut params, SqlParam::BigInt(p));
                },
                None => {
                    sql.append(COMMENTS_AFTER_CURSOR_TOP_SQL);
                },
            }
        },
        None => {
            match parent_id {
                Some(p) => {
                    sql.append(COMMENTS_PARENT_SQL);
                    push_param(&mut params, SqlParam::BigInt(p));
                },
                None => {
                    sql.append(COMMENTS_TOP_SQL);
                },
            }
        },
    }
    let is_comment = match &comment_type {
        Some(t) => str_eq(t.as_str(), "comment"),
        None => true,
    };
    let is_update = match &comment_type {
        Some(t) => str_eq(t.as_str(), "update"),
        None => false,
    };
    match comment_type {
        Some(t) => {
            sql.append(COMMENTS_TYPE_SQL_HEAD);
            push_decimal(&mut sql, (params.len() as u64) + 1);
            sql.append(COMMENTS_TYPE_SQL_TAIL);
            push_param(&mut params, SqlParam::Text(t));
        },
        None => {},
    }
    if is_comment {
        sql.append(COMMENTS_ORDER_RANKED_SQL);
    } else if is_update {
        sql.append(COMMENTS_ORDER_UPDATES_SQL);
    }
    sql.append("LIMIT ");
    push_decimal(&mut sql, (params.len() as u64) + 1);
    push_param(&mut params, SqlParam::BigInt(limit + 1));
    Ok(SqlQuery { sql, params })
}

/// Without a parent, a comments query, on the first page or after a cursor,
/// lists top-level comments only: its text filters on
/// `parent_comment_id IS NULL`. With a parent `p`, it filters on
/// `parent_comment_id = $..` and binds `p`.
pub proof fn lemma_comments_query_parent_filter(
    post_id: i64,
    cursor: Option<Seq<char>>,
    user_id: i64,
    comment_type: Option<Seq<char>>,
    parent_id: Option<i64>,
    limit: i64,
)
    ensures
        comments_query_spec(post_id, cursor, user_id, comment_type, parent_id, limit) matches Ok(
            (sql, ps),
        ) ==> match parent_id {
            None => contains_spec(sql, "parent_comment_id IS NULL"@),
            Some(p) => contains_spec(sql, "parent_comment_id = $"@) && ps.contains(
                SqlParamModel::BigInt(p),
            ),
        },
{
    let r = comments_query_spec(post_id, cursor, user_id, comment_type, parent_id, limit);
    if r is Ok {
        let (sql, ps) = r->Ok_0;
        reveal_strlit(" AND parent_comment_id IS NULL");
        reveal_strlit(" WHERE parent_comment_id IS NULL");
        reveal_strlit(" AND parent_comment_id = $6");
        reveal_strlit(" WHERE parent_comment_id = $3");
        reveal_strlit("parent_comment_id IS NULL");
        reveal_strlit("parent_comment_id = $");
        let base = COMMENTS_BASE_SQL@;
        let p0 = seq![SqlParamModel::BigInt(post_id), SqlParamModel::BigInt(user_id)];
        let (head, filter, k, fps) = match cursor {
            Some(c) => {
                let v = parse_prefix_spec(c, 3).unwrap();
                let ps1 = p0 + seq![
                    SqlParamModel::BigInt(v[0]),
                    SqlParamModel::BigInt(v[1]),
                    SqlParamModel::BigInt(v[2]),
                ];
                match parent_id {
                    Some(p) => (
                        base + COMMENTS_CURSOR_SQL@,
                        COMMENTS_AFTER_CURSOR_PARENT_SQL@,
                        5int,
                        ps1.push(SqlParamModel::BigInt(p)),
                    ),
                    None => (base + COMMENTS_CURSOR_SQL@, COMMENTS_AFTER_CURSOR_TOP_SQL@, 5int, ps1),
                }
            },
            None => match parent_id {
                Some(p) => (base, COMMENTS_PARENT_SQL@, 7int, p0.push(SqlParamModel::BigInt(p))),
                None => (base, COMMENTS_TOP_SQL@, 7int, p0),
            },
        };
        let fsql = head + filter;
        let pat = match parent_id {
            Some(_) => "parent_comment_id = $"@,
            None => "parent_comment_id IS NULL"@,
        };
        assert(filter.subrange(k, k + pat.len()) =~= pat);
        lemma_occurs_within(head, filter, Seq::<char>::empty(), pat, k);
        assert(head + filter + Seq::<char>::empty() =~= fsql);
        assert(sql.subrange(0, fsql.len() as int) =~= fsql);
        lemma_contains_prefix(fsql, sql, pat);
        if parent_id is Some {
            let p = parent_id->0;
            assert(fps[fps.len() - 1] == SqlParamModel::BigInt(p));
            assert(ps.subrange(0, fps.len() as int) =~= fps);
            assert(ps[fps.len() - 1] == SqlParamModel::BigInt(p));
        }
    }
}

/// Reading on after a comment row: the query for the cursor of the row
/// `(is_user, popularity, id)` succeeds; it binds the post and the reader as
/// `$1` and `$2` and the row's three values, in order, as `$3`, `$4` and
/// `$5`, and it filters on them.
pub proof fn lemma_comments_next_page_binds_row(
    post_id: i64,
    row: (i64, i64, i64),
    user_id: i64,
    comment_type: Option<Seq<char>>,
    parent_id: Option<i64>,
    limit: i64,
)
    ensures
        comments_query_spec(
            post_id,
            Some(comment_cursor_spec(row)),
            user_id,
            comment_type,
            parent_id,
            limit,
        ) matches Ok((sql, ps)) && ps.len() >= 5 && ps[0] == SqlParamModel::BigInt(post_id)
            && ps[1] == SqlParamModel::BigInt(user_id) && ps[2] == SqlParamModel::BigInt(row.0)
            && ps[3] == SqlParamModel::BigInt(row.1) && ps[4] == SqlParamModel::BigInt(row.2)
            && contains_spec(sql, "is_user_comment < $3"@),
{
    lemma_cursor3_roundtrip(row.0, row.1, row.2);
    let r = comments_query_spec(
        post_id,
        Some(comment_cursor_spec(row)),
        user_id,
        comment_type,
        parent_id,
        limit,
    );
    let (sql, ps) = r->Ok_0;
    let five = seq![
        SqlParamModel::BigInt(post_id),
        SqlParamModel::BigInt(user_id),
        SqlParamModel::BigInt(row.0),
        SqlParamModel::BigInt(row.1),
        SqlParamModel::BigInt(row.2),
    ];
    assert(ps.subrange(0, 5) =~= five);
    assert(ps[0] == ps.subrange(0, 5)[0]);
    assert(ps[1] == ps.subrange(0, 5)[1]);
    assert(ps[2] == ps.subrange(0, 5)[2]);
    assert(ps[3] == ps.subrange(0, 5)[3]);
    assert(ps[4] == ps.subrange(0, 5)[4]);
    let head = COMMENTS_BASE_SQL@ + COMMENTS_CURSOR_SQL@;
    let pat = "is_user_comment < $3"@;
    reveal_strlit("is_user_comment < $3");
    reveal_strlit("
            WHERE (is_user_comment < $3 OR
                   (is_user_comment = $3 AND popularity_score < $4) OR
                   (is_user_comment = $3 AND popularity_score = $4
                    AND comment_id < $5))
        ");
    assert(COMMENTS_CURSOR_SQL@.subrange(20, 20 + pat.len() as int) =~= pat);
    lemma_occurs_within(COMMENTS_BASE_SQL@, COMMENTS_CURSOR_SQL@, Seq::<char>::empty(), pat, 20);
    assert(COMMENTS_BASE_SQL@ + COMMENTS_CURSOR_SQL@ + Seq::<char>::empty() =~= head);
    assert(sql.subrange(0, head.len() as int) =~= head);
    lemma_contains_prefix(head, sql, pat);
}

/// A comments query of a given type binds the type and filters on it; plain
/// comments (no type, or `comment`) come ranked, the reader's first, and
/// updates come in the order they were written. The last parameter is one
/// more than the page size: one row beyond the page tells whether there are
/// more.
pub proof fn lemma_comments_query_type_and_order(
    post_id: i64,
    cursor: Option<Seq<char>>,
    user_id: i64,
    comment_type: Option<Seq<char>>,
    parent_id: Option<i64>,
    limit: i64,
)
    ensures
        comments_query_spec(post_id, cursor, user_id, comment_type, parent_id, limit) matches Ok(
            (sql, ps),
        ) ==> (comment_type matches Some(t) ==> ps.contains(SqlParamModel::Text(t))
            && contains_spec(sql, "type = $"@)),
        comments_query_spec(post_id, cursor, user_id, comment_type, parent_id, limit) matches Ok(
            (sql, ps),
        ) ==> ((comment_type is None || comment_type == Some("comment"@)) ==> contains_spec(
            sql,
            "ORDER BY is_user_comment DESC"@,
        )),
        comments_query_spec(post_id, cursor, user_id, comment_type, parent_id, limit) matches Ok(
            (sql, ps),
        ) ==> (comment_type == Some("update"@) ==> contains_spec(
            sql,
            "ORDER BY comment_id::bigint"@,
        )),
        comments_query_spec(post_id, cursor, user_id, comment_type, parent_id, limit) matches Ok(
            (sql, ps),
        ) ==> ps.len() > 0 && ps.last() == SqlParamModel::BigInt((limit + 1) as i64),
{
    let r = comments_query_spec(post_id, cursor, user_id, comment_type, parent_id, limit);
    if r is Ok {
        let (fsql, fps) = r->Ok_0;
        let p0 = seq![SqlParamModel::BigInt(post_id), SqlParamModel::BigInt(user_id)];
        let base = COMMENTS_BASE_SQL@;
        let (sql, ps) = match cursor {
            Some(c) => {
                let v = parse_prefix_spec(c, 3).unwrap();
                let q = base + COMMENTS_CURSOR_SQL@;
                let qs = p0 + seq![
                    SqlParamModel::BigInt(v[0]),
                    SqlParamModel::BigInt(v[1]),
                    SqlParamModel::BigInt(v[2]),
                ];
                match parent_id {
                    Some(p) => (q + COMMENTS_AFTER_CURSOR_PARENT_SQL@, qs.push(SqlParamModel::BigInt(p))),
                    None => (q + COMMENTS_AFTER_CURSOR_TOP_SQL@, qs),
                }
            },
            None => match parent_id {
                Some(p) => (base + COMMENTS_PARENT_SQL@, p0.push(SqlParamModel::BigInt(p))),
                None => (base + COMMENTS_TOP_SQL@, p0),
            },
        };
        let (sql2, ps2) = match comment_type {
            Some(t) => (
                sql + COMMENTS_TYPE_SQL_HEAD@ + nat_to_decimal(ps.len() + 1)
                    + COMMENTS_TYPE_SQL_TAIL@,
                ps.push(SqlParamModel::Text(t)),
            ),
            None => (sql, ps),
        };
        let order = if comment_type is None || comment_type == Some("comment"@) {
            COMMENTS_ORDER_RANKED_SQL@
        } else if comment_type == Some("update"@) {
            COMMENTS_ORDER_UPDATES_SQL@
        } else {
            Seq::<char>::empty()
        };
        let tail = "LIMIT "@ + nat_to_decimal(ps2.len() + 1);
        assert(fsql =~= sql2 + order + tail);
        assert(fps =~= ps2.push(SqlParamModel::BigInt((limit + 1) as i64)));
        reveal_strlit("comment");
        reveal_strlit("update");
        assert("update"@[0] != "comment"@[0]);
        assert("update"@ != "comment"@);
        reveal_strlit("type = $");
        reveal_strlit("ORDER BY is_user_comment DESC");
        reveal_strlit("ORDER BY comment_id::bigint");
        reveal_strlit("
            AND type = $");
        reveal_strlit("
            ORDER BY is_user_comment DESC, popularity_score DESC,
                    comment_id::bigint DESC
        ");
        reveal_strlit("
            ORDER BY comment_id::bigint
        ");
        if comment_type is Some {
            let t = comment_type->Some_0;
            let pat = "type = $"@;
            let h = COMMENTS_TYPE_SQL_HEAD@;
            assert(h.subrange(17, 17 + pat.len() as int) =~= pat);
            let rest = nat_to_decimal(ps.len() + 1) + COMMENTS_TYPE_SQL_TAIL@ + order + tail;
            lemma_occurs_within(sql, h, rest, pat, 17);
            assert(sql + h + rest =~= fsql);
            assert(fps[ps.len() as int] == SqlParamModel::Text(t));
        }
        if comment_type is None || comment_type == Some("comment"@) {
            let pat = "ORDER BY is_user_comment DESC"@;
            assert(order.subrange(13, 13 + pat.len() as int) =~= pat);
            lemma_occurs_within(sql2, order, tail, pat, 13);
        } else if comment_type == Some("update"@) {
            let pat = "ORDER BY comment_id::bigint"@;
            assert(order.subrange(13, 13 + pat.len() as int) =~= pat);
            lemma_occurs_within(sql2, order, tail, pat, 13);
            assert(contains_spec(fsql, pat));
        }

    }
}

/// A page of comment ids.
#[derive(Debug, Clone, PartialEq)]
pub struct CommentsList {
    pub comments: Vec<i64>,
    pub next_cursor: Option<String>,
    pub has_more: bool,
}

/// The cursor after a comment row: `is_user,popularity,comment_id`.
pub open spec fn comment_cursor_spec(row: (i64, i64, i64)) -> Seq<char> {
    int_to_decimal(row.0 as int) + seq![','] + int_to_decimal(row.1 as int) + seq![','] + int_to_decimal(
        row.2 as int,
    )
}

/// The rows of a comments page that it shows: all but the last row.
pub open spec fn shown_rows<T>(rows: Seq<T>) -> Seq<T> {
    if rows.len() > 0 {
        rows.drop_last()
    } else {
        rows
    }
}

/// The page made of the rows `(is_user_comment, popularity_score,
/// comment_id)` of the comments query: whether there are more than `limit`
/// rows, the ids of all rows but the last, and the cursor after the last of
/// those.
pub fn comments_page(rows: Vec<(i64, i64, i64)>, limit: i64) -> (res: CommentsList)
    ensures
        res.has_more == (rows@.len() > (limit as usize)),
        res.comments@ == shown_rows(rows@).map_values(|r: (i64, i64, i64)| r.2),
        match res.next_cursor {
            None => shown_rows(rows@).len() == 0,
            Some(c) => shown_rows(rows@).len() > 0 && c@ == comment_cursor_spec(
                shown_rows(rows@).last(),
            ) && parse_prefix_spec(c@, 3) == Some(
                seq![
                    shown_rows(rows@).last().0,
                    shown_rows(rows@).last().1,
                    shown_rows(rows@).last().2,
                ],
            ),
        },
{
    let has_more = rows.len() > limit as usize;
    let n = if rows.len() > 0 {
        rows.len() - 1
    } else {
        0
    };
    let ghost shown = shown_rows(rows@);
    let mut comments: Vec<i64> = Vec::new();
    for i in 0..n
        invariant
            n <= rows@.len(),
            shown == shown_rows(rows@),
            shown.len() == n,
            comments@ == shown.take(i as int).map_values(|r: (i64, i64, i64)| r.2),
    {
        assert(shown[i as int] == rows@[i as int]);
        comments.push(rows[i].2);
        assert(comments@ =~= shown.take(i + 1).map_values(|r: (i64, i64, i64)| r.2));
    }
    assert(shown.take(n as int) =~= shown);
    let next_cursor = if n > 0 {
        let (a, b, c) = rows[n - 1];
        assert(shown.last() == rows@[n - 1]);
        let mut cur = i64_to_decimal(a);
        push_char(&mut cur, ',');
        let sb = i64_to_decimal(b);
        cur.append(sb.as_str());
        push_char(&mut cur, ',');
        let sc = i64_to_decimal(c);
        cur.append(sc.as_str());
        assert(cur@ =~= comment_cursor_spec(shown.last()));
        proof {
            lemma_cursor3_roundtrip(a, b, c);
        }
        Some(cur)
    } else {
        None
    };
    CommentsList { comments, next_cursor, has_more }
}

proof fn lemma_trim_decimal(n: i64)
    ensures
        trim_spec(int_to_decimal(n as int)) == int_to_decimal(n as int),
        lacks(int_to_decimal(n as int), ','),
{
    let m: nat = if n < 0 {
        (-(n as int)) as nat
    } else {
        n as nat
    };
    lemma_decimal_digits(m);
    let d = int_to_decimal(n as int);
    let nd = nat_to_decimal(m);
    assert(d.last() == nd.last());
    assert(crate::text::is_digit(nd.last()));
    assert(crate::text::trim_start_spec(d) == d);
    assert(crate::text::trim_end_spec(d) == d);
    if n < 0 {
        assert forall|i: int| 0 <= i < d.len() implies #[trigger] d[i] != ',' by {
            if i > 0 {
                assert(d[i] == nd[i - 1]);
            }
        }
    }
}

proof fn lemma_cursor3_roundtrip(a: i64, b: i64, c: i64)
    ensures
        parse_prefix_spec(comment_cursor_spec((a, b, c)), 3) == Some(seq![a, b, c]),
{
    let da = int_to_decimal(a as int);
    let db = int_to_decimal(b as int);
    let dc = int_to_decimal(c as int);
    lemma_trim_decimal(a);
    lemma_trim_decimal(b);
    lemma_trim_decimal(c);
    lemma_parse_i64_decimal(a);
    lemma_parse_i64_decimal(b);
    lemma_parse_i64_decimal(c);
    lemma_split_no_sep(da, ',');
    lemma_split_no_sep(db, ',');
    lemma_split_no_sep(dc, ',');
    lemma_split_concat(db, dc, ',');
    lemma_split_concat(da, db + seq![','] + dc, ',');
    assert(comment_cursor_spec((a, b, c)) =~= da + seq![','] + (db + seq![','] + dc));
    let pieces = split_spec(comment_cursor_spec((a, b, c)), ',');
    assert(pieces =~= seq![da, db, dc]);
    assert(pieces.take(3) =~= pieces);
    let p = pieces.take(3);
    assert(p.drop_last() =~= seq![da, db]);
    assert(p.drop_last().drop_last() =~= seq![da]);
    assert(p.drop_last().drop_last().drop_last() =~= Seq::<Seq<char>>::empty());
    assert(crate::format::parse_pieces_spec(seq![da]) == Some(seq![a])) by {
        assert(seq![da].drop_last() =~= Seq::<Seq<char>>::empty());
        assert(seq![da].last() == da);
        assert(parse_i64_spec(trim_spec(da)) == Some(a));
        assert(crate::format::parse_pieces_spec(Seq::<Seq<char>>::empty()) == Some(
            Seq::<i64>::empty(),
        ));
        assert(Seq::<i64>::empty().push(a) =~= seq![a]);
    }
    assert(crate::format::parse_pieces_spec(seq![da, db]) == Some(seq![a, b])) by {
        assert(seq![da, db].drop_last() =~= seq![da]);
        assert(seq![da, db].last() == db);
        assert(seq![a].push(b) =~= seq![a, b]);
    }
    assert(seq![a, b].push(c) =~= seq![a, b, c]);
}


// ---------------------------------------------------------------------------
// Feeds
// ---------------------------------------------------------------------------

/// Which feed to read.
#[derive(Debug, Clone, Copy, PartialEq, Eq)]
pub enum PostsMode {
    Popular,
    New,
    ByFollowing,
}

/// The feed query, or the error for an unreadable cursor: posts of the
/// feed for `user_id`, without the viewed ones where `hide_viewed`, after
/// the cursor where one is given, at most `limit`. A popular cursor is
/// `popularity,post_id` (pieces trimmed); the others are a post id.
pub open spec fn posts_query_spec(
    mode: PostsMode,
    user_id: i64,
    limit: i64,
    cursor: Option<Seq<char>>,
    hide_viewed: bool,
) -> Result<(Seq<char>, Seq<SqlParamModel>), &'static str> {
    let p0 = seq![SqlParamModel::BigInt(limit), SqlParamModel::BigInt(user_id)];
    let base = match mode {
        PostsMode::Popular => POSTS_POPULAR_SQL@,
        PostsMode::New => POSTS_NEW_SQL@,
        PostsMode::ByFollowing => POSTS_FOLLOWING_SQL@,
    };
    let sql = if hide_viewed {
        base + POSTS_HIDE_VIEWED_SQL@
    } else {
        base
    };
    let order = match mode {
        PostsMode::Popular => POSTS_ORDER_POPULAR_SQL@,
        _ => POSTS_ORDER_NEW_SQL@,
    };
    match cursor {
        None => Ok((sql + order, p0)),
        Some(c) => match mode {
            PostsMode::Popular => match parse_prefix_spec(c, 2) {
                None => Err("INCORRECT_CURSOR"),
                Some(v) => Ok(
                    (
                        sql + POSTS_POPULAR_CURSOR_SQL@ + order,
                        p0 + seq![SqlParamModel::BigInt(v[0]), SqlParamModel::BigInt(v[1])],
                    ),
                ),
            },
            _ => match parse_i64_spec(c) {
                None => Err("INCORRECT_CURSOR"),
                Some(pid) => Ok(
                    (sql + POSTS_ID_CURSOR_SQL@ + order, p0.push(SqlParamModel::BigInt(pid))),
                ),
            },
        },
    }
}

/// The feed query for the request's parameters.
pub fn posts_query(
    mode: &PostsMode,
    user_id: i64,
    limit: i64,
    cursor: Option<String>,
    hide_viewed: bool,
) -> (res: Result<SqlQuery, &'static str>)
    ensures
        query_result_view(res) == posts_query_spec(
            *mode,
            user_id,
            limit,
            opt_string_view(cursor),
            hide_viewed,
        ),
{
    let mut params: Vec<SqlParam> = Vec::new();
    push_param(&mut params, SqlParam::BigInt(limit));
    push_param(&mut params, SqlParam::BigInt(user_id));
    assert(params_view(params@) =~= seq![
        SqlParamModel::BigInt(limit),
        SqlParamModel::BigInt(user_id),
    ]);
    let mut sql = match mode {
        PostsMode::Popular => String::from_str(POSTS_POPULAR_SQL),
        PostsMode::New => String::from_str(POSTS_NEW_SQL),
        PostsMode::ByFollowing => String::from_str(POSTS_FOLLOWING_SQL),
    };
    if hide_viewed {
        sql.append(POSTS_HIDE_VIEWED_SQL);
    }
    match cursor {
        Some(c) => {
            match mode {
                PostsMode::Popular => {
                    let (pop, pid) = match parse_tuple(c.as_str()) {
                        Some(t) => t,
                        None => {
                            return Err("INCORRECT_CURSOR");
                        },
                    };
                    sql.append(POSTS_POPULAR_CURSOR_SQL);
                    let ghost p0 = params_view(params@);
                    push_param(&mut params, SqlParam::BigInt(pop));
                    push_param(&mut params, SqlParam::BigInt(pid));
                    assert(params_view(params@) =~= p0 + seq![
                        SqlParamModel::BigInt(pop),
                        SqlParamModel::BigInt(pid),
                    ]);
                },
                _ => {
                    let cc = chars_of(c.as_str());
                    let pid = match parse_i64(cc.as_slice()) {
                        Some(v) => v,
                        None => {
                            return Err("INCORRECT_CURSOR");
                        },
                    };
                    sql.append(POSTS_ID_CURSOR_SQL);
                    push_param(&mut params, SqlParam::BigInt(pid));
                },
            }
        },
        None => {},
    }
    match mode {
        PostsMode::Popular => sql.append(POSTS_ORDER_POPULAR_SQL),
        _ => sql.append(POSTS_ORDER_NEW_SQL),
    }
    Ok(SqlQuery { sql, params })
}

/// The feed query asked to hide viewed posts is the one that shows them
/// with `POSTS_HIDE_VIEWED_SQL` inserted right after the mode's base query,
/// the parameters and every other part the same; a cursor that one of them
/// refuses, the other refuses too. This holds in every mode.
pub proof fn lemma_posts_hide_viewed(
    mode: PostsMode,
    user_id: i64,
    limit: i64,
    cursor: Option<Seq<char>>,
)
    ensures
        ({
            let base = match mode {
                PostsMode::Popular => POSTS_POPULAR_SQL@,
                PostsMode::New => POSTS_NEW_SQL@,
                PostsMode::ByFollowing => POSTS_FOLLOWING_SQL@,
            };
            let k = base.len() as int;
            match (
                posts_query_spec(mode, user_id, limit, cursor, true),
                posts_query_spec(mode, user_id, limit, cursor, false),
            ) {
                (Ok((hidden, ph)), Ok((shown, ps))) => {
                    &&& ph == ps
                    &&& shown.len() >= k
                    &&& shown.subrange(0, k) == base
                    &&& hidden == shown.subrange(0, k) + POSTS_HIDE_VIEWED_SQL@ + shown.subrange(
                        k,
                        shown.len() as int,
                    )
                },
                (Err(e1), Err(e2)) => e1 == e2,
                _ => false,
            }
        }),
{
    let base = match mode {
        PostsMode::Popular => POSTS_POPULAR_SQL@,
        PostsMode::New => POSTS_NEW_SQL@,
        PostsMode::ByFollowing => POSTS_FOLLOWING_SQL@,
    };
    let k = base.len() as int;
    let order = match mode {
        PostsMode::Popular => POSTS_ORDER_POPULAR_SQL@,
        _ => POSTS_ORDER_NEW_SQL@,
    };
    let h = POSTS_HIDE_VIEWED_SQL@;
    match cursor {
        None => {
            let shown = base + order;
            assert(shown.subrange(0, k) =~= base);
            assert(shown.subrange(k, shown.len() as int) =~= order);
            assert(base + h + order =~= base + h + order);
        },
        Some(c) => {
            let tail = match mode {
                PostsMode::Popular => POSTS_POPULAR_CURSOR_SQL@ + order,
                _ => POSTS_ID_CURSOR_SQL@ + order,
            };
            let shown = base + tail;
            assert(shown.subrange(0, k) =~= base);
            assert(shown.subrange(k, shown.len() as int) =~= tail);
            match mode {
                PostsMode::Popular => {
                    assert(base + POSTS_POPULAR_CURSOR_SQL@ + order =~= shown);
                    assert(base + h + POSTS_POPULAR_CURSOR_SQL@ + order =~= base + h + tail);
                },
                _ => {
                    assert(base + POSTS_ID_CURSOR_SQL@ + order =~= shown);
                    assert(base + h + POSTS_ID_CURSOR_SQL@ + order =~= base + h + tail);
                },
            }
        },
    }
}

/// Reading on after a feed row: the query for the cursor of the row
/// `(popularity, post_id)` succeeds; it binds the limit and the reader as
/// `$1` and `$2`, then, in the popular feed, the row's popularity and id as
/// `$3` and `$4`, and in the other feeds its id as `$3`.
pub proof fn lemma_posts_next_page_binds_row(
    mode: PostsMode,
    user_id: i64,
    limit: i64,
    row: (i64, i64),
    hide_viewed: bool,
)
    ensures
        posts_query_spec(
            mode,
            user_id,
            limit,
            Some(post_cursor_spec(mode, row)),
            hide_viewed,
        ) matches Ok((_, ps)) && ps.len() >= 3 && ps[0] == SqlParamModel::BigInt(limit) && ps[1]
            == SqlParamModel::BigInt(user_id) && match mode {
            PostsMode::Popular => ps.len() == 4 && ps[2] == SqlParamModel::BigInt(row.0) && ps[3]
                == SqlParamModel::BigInt(row.1),
            _ => ps.len() == 3 && ps[2] == SqlParamModel::BigInt(row.1),
        },
{
    match mode {
        PostsMode::Popular => {
            lemma_cursor2_roundtrip(row.0, row.1);
        },
        _ => {
            lemma_parse_i64_decimal(row.1);
        },
    }
}

/// A feed query binds the page size and the reader as `$1` and `$2`, takes
/// at most `$1` posts, and orders them: by popularity in the popular feed,
/// newest first in the others.
pub proof fn lemma_posts_query_order(
    mode: PostsMode,
    user_id: i64,
    limit: i64,
    cursor: Option<Seq<char>>,
    hide_viewed: bool,
)
    ensures
        posts_query_spec(mode, user_id, limit, cursor, hide_viewed) matches Ok((sql, ps)) ==> {
            &&& ps.len() >= 2
            &&& ps[0] == SqlParamModel::BigInt(limit)
            &&& ps[1] == SqlParamModel::BigInt(user_id)
            &&& contains_spec(sql, "LIMIT $1"@)
            &&& mode is Popular ==> contains_spec(sql, "ORDER BY popularity_score DESC"@)
            &&& !(mode is Popular) ==> contains_spec(sql, "ORDER BY post_id DESC"@)
        },
{
    let r = posts_query_spec(mode, user_id, limit, cursor, hide_viewed);
    if r is Ok {
        let (sql, ps) = r->Ok_0;
        reveal_strlit(" ORDER BY popularity_score DESC, post_id DESC LIMIT $1");
        reveal_strlit(" ORDER BY post_id DESC LIMIT $1");
        reveal_strlit("LIMIT $1");
        reveal_strlit("ORDER BY popularity_score DESC");
        reveal_strlit("ORDER BY post_id DESC");
        let order = match mode {
            PostsMode::Popular => POSTS_ORDER_POPULAR_SQL@,
            _ => POSTS_ORDER_NEW_SQL@,
        };
        let head = sql.subrange(0, sql.len() - order.len());
        assert(sql.len() >= order.len());
        assert(sql =~= head + order + Seq::<char>::empty());
        let lim = "LIMIT $1"@;
        let at = order.len() - 8;
        assert(order.subrange(at, at + lim.len() as int) =~= lim);
        lemma_occurs_within(head, order, Seq::<char>::empty(), lim, at);
        let pat = match mode {
            PostsMode::Popular => "ORDER BY popularity_score DESC"@,
            _ => "ORDER BY post_id DESC"@,
        };
        assert(order.subrange(1, 1 + pat.len() as int) =~= pat);
        lemma_occurs_within(head, order, Seq::<char>::empty(), pat, 1);
    }
}

/// A page of post ids.
#[derive(Debug, Clone, PartialEq)]
pub struct PostsList {
    pub posts: Vec<i64>,
    pub next_cursor: Option<String>,
}

/// The cursor after a feed row `(popularity_score, post_id)`.
pub open spec fn post_cursor_spec(mode: PostsMode, row: (i64, i64)) -> Seq<char> {
    match mode {
        PostsMode::Popular => int_to_decimal(row.0 as int) + seq![','] + int_to_decimal(
            row.1 as int,
        ),
        _ => int_to_decimal(row.1 as int),
    }
}

/// The page made of the feed rows `(popularity_score, post_id)` (the
/// popularity is read only for the popular feed): the post ids, and the
/// cursor after the last row, which the feed query reads back.
pub fn posts_page(mode: &PostsMode, rows: Vec<(i64, i64)>) -> (res: PostsList)
    ensures
        res.posts@ == rows@.map_values(|r: (i64, i64)| r.1),
        match res.next_cursor {
            None => rows@.len() == 0,
            Some(c) => rows@.len() > 0 && c@ == post_cursor_spec(*mode, rows@.last()) && match *mode {
                PostsMode::Popular => parse_prefix_spec(c@, 2) == Some(
                    seq![rows@.last().0, rows@.last().1],
                ),
                _ => parse_i64_spec(c@) == Some(rows@.last().1),
            },
        },
{
    let mut posts: Vec<i64> = Vec::new();
    for i in 0..rows.len()
        invariant
            posts@ == rows@.take(i as int).map_values(|r: (i64, i64)| r.1),
    {
        posts.push(rows[i].1);
        assert(posts@ =~= rows@.take(i + 1).map_values(|r: (i64, i64)| r.1));
    }
    assert(rows@.take(rows.len() as int) =~= rows@);
    let next_cursor = if rows.len() > 0 {
        let (pop, pid) = rows[rows.len() - 1];
        match mode {
            PostsMode::Popular => {
                let mut cur = i64_to_decimal(pop);
                push_char(&mut cur, ',');
                let sp = i64_to_decimal(pid);
                cur.append(sp.as_str());
                assert(cur@ =~= post_cursor_spec(*mode, rows@.last()));
                proof {
                    lemma_cursor2_roundtrip(pop, pid);
                }
                Some(cur)
            },
            _ => {
                proof {
                    lemma_parse_i64_decimal(pid);
                }
                Some(i64_to_decimal(pid))
            },
        }
    } else {
        None
    };
    PostsList { posts, next_cursor }
}

proof fn lemma_cursor2_roundtrip(a: i64, b: i64)
    ensures
        parse_prefix_spec(int_to_decimal(a as int) + seq![','] + int_to_decimal(b as int), 2)
            == Some(seq![a, b]),
{
    let da = int_to_decimal(a as int);
    let db = int_to_decimal(b as int);
    lemma_trim_decimal(a);
    lemma_trim_decimal(b);
    lemma_parse_i64_decimal(a);
    lemma_parse_i64_decimal(b);
    lemma_split_no_sep(da, ',');
    lemma_split_no_sep(db, ',');
    lemma_split_concat(da, db, ',');
    let pieces = split_spec(da + seq![','] + db, ',');
    assert(pieces =~= seq![da, db]);
    assert(pieces.take(2) =~= pieces);
    assert(crate::format::parse_pieces_spec(seq![da]) == Some(seq![a])) by {
        assert(seq![da].drop_last() =~= Seq::<Seq<char>>::empty());
        assert(seq![da].last() == da);
        assert(parse_i64_spec(trim_spec(da)) == Some(a));
        assert(crate::format::parse_pieces_spec(Seq::<Seq<char>>::empty()) == Some(
            Seq::<i64>::empty(),
        ));
        assert(Seq::<i64>::empty().push(a) =~= seq![a]);
    }
    assert(seq![da, db].drop_last() =~= seq![da]);
    assert(seq![da, db].last() == db);
    assert(seq![a].push(b) =~= seq![a, b]);
}


// ---------------------------------------------------------------------------
// Profiles
// ---------------------------------------------------------------------------

/// The fields of a profile to change; `None` leaves a field as it is.
#[derive(Debug, Clone, PartialEq, Default)]
pub struct UserProfileUpdate {
    pub display_name: Option<String>,
    pub avatar_context_id: Option<i64>,
    pub banner_context_id: Option<i64>,
    pub bio: Option<String>,
    pub languages: Option<Vec<String>>,
}

/// The columns to set and their values, in the order of the fields.
pub open spec fn profile_columns(u: UserProfileUpdate) -> Seq<(Seq<char>, SqlParamModel)> {
    let c0 = Seq::<(Seq<char>, SqlParamModel)>::empty();
    let c1 = match u.display_name {
        Some(v) => c0.push(("display_name"@, SqlParamModel::Text(v@))),
        None => c0,
    };
    let c2 = match u.avatar_context_id {
        Some(v) => c1.push(("avatar_context_id"@, SqlParamModel::BigInt(v))),
        None => c1,
    };
    let c3 = match u.banner_context_id {
        Some(v) => c2.push(("banner_context_id"@, SqlParamModel::BigInt(v))),
        None => c2,
    };
    let c4 = match u.bio {
        Some(v) => c3.push(("bio"@, SqlParamModel::Text(v@))),
        None => c3,
    };
    match u.languages {
        Some(v) => c4.push(("languages"@, SqlParamModel::TextArray(v@.map_values(|s: String| s@)))),
        None => c4,
    }
}

/// A column to set is the one named after a given field of the update,
/// with that field's value.
pub open spec fn column_of_given_field(col: (Seq<char>, SqlParamModel), u: UserProfileUpdate) -> bool {
    ||| col.0 == "display_name"@ && u.display_name is Some && col.1 == SqlParamModel::Text(
        u.display_name.unwrap()@,
    )
    ||| col.0 == "avatar_context_id"@ && u.avatar_context_id is Some && col.1
        == SqlParamModel::BigInt(u.avatar_context_id.unwrap())
    ||| col.0 == "banner_context_id"@ && u.banner_context_id is Some && col.1
        == SqlParamModel::BigInt(u.banner_context_id.unwrap())
    ||| col.0 == "bio"@ && u.bio is Some && col.1 == SqlParamModel::Text(u.bio.unwrap()@)
    ||| col.0 == "languages"@ && u.languages is Some && col.1 == SqlParamModel::TextArray(
        u.languages.unwrap()@.map_values(|s: String| s@),
    )
}

/// Each field of a profile update that is given is written to the column of
/// its own name with its own value, and every column written is such a
/// field; nothing is written where no field is given. The upsert binds the
/// user id first and then the value of each column, in the columns' order.
pub proof fn lemma_profile_columns_follow_fields(user_id: i64, u: UserProfileUpdate)
    ensures
        forall|i: int|
            0 <= i < profile_columns(u).len() ==> column_of_given_field(
                #[trigger] profile_columns(u)[i],
                u,
            ),
        u.display_name matches Some(v) ==> profile_columns(u).contains(
            ("display_name"@, SqlParamModel::Text(v@)),
        ),
        u.avatar_context_id matches Some(v) ==> profile_columns(u).contains(
            ("avatar_context_id"@, SqlParamModel::BigInt(v)),
        ),
        u.banner_context_id matches Some(v) ==> profile_columns(u).contains(
            ("banner_context_id"@, SqlParamModel::BigInt(v)),
        ),
        u.bio matches Some(v) ==> profile_columns(u).contains(("bio"@, SqlParamModel::Text(v@))),
        u.languages matches Some(v) ==> profile_columns(u).contains(
            ("languages"@, SqlParamModel::TextArray(v@.map_values(|s: String| s@))),
        ),
        match profile_query_spec(user_id, u) {
            None => u.display_name is None && u.avatar_context_id is None
                && u.banner_context_id is None && u.bio is None && u.languages is None,
            Some((sql, ps)) => {
                &&& forall|i: int|
                    0 <= i < profile_columns(u).len() ==> contains_spec(
                        sql,
                        #[trigger] profile_columns(u)[i].0 + " = EXCLUDED."@ + profile_columns(
                            u,
                        )[i].0,
                    )
                &&& forall|i: int|
                    0 <= i < profile_columns(u).len() ==> contains_spec(
                        sql,
                        seq!['$'] + #[trigger] nat_to_decimal((i + 2) as nat),
                    )
                &&& ps.len() == profile_columns(u).len() + 1
                &&& ps[0] == SqlParamModel::BigInt(user_id)
                &&& forall|i: int|
                    0 <= i < profile_columns(u).len() ==> ps[i + 1] == #[trigger] profile_columns(
                        u,
                    )[i].1
            },
        },
{
    let cols = profile_columns(u);
    let part0 = Seq::<(Seq<char>, SqlParamModel)>::empty();
    let part1 = match u.display_name {
        Some(v) => part0.push(("display_name"@, SqlParamModel::Text(v@))),
        None => part0,
    };
    let part2 = match u.avatar_context_id {
        Some(v) => part1.push(("avatar_context_id"@, SqlParamModel::BigInt(v))),
        None => part1,
    };
    let part3 = match u.banner_context_id {
        Some(v) => part2.push(("banner_context_id"@, SqlParamModel::BigInt(v))),
        None => part2,
    };
    let part4 = match u.bio {
        Some(v) => part3.push(("bio"@, SqlParamModel::Text(v@))),
        None => part3,
    };
    assert(cols =~= match u.languages {
        Some(v) => part4.push(("languages"@, SqlParamModel::TextArray(v@.map_values(|s: String| s@)))),
        None => part4,
    });
    assert forall|i: int| 0 <= i < part1.len() implies column_of_given_field(#[trigger] part1[i], u) by {}
    assert forall|i: int| 0 <= i < part2.len() implies column_of_given_field(#[trigger] part2[i], u) by {
        if i < part1.len() {
            assert(part2[i] == part1[i]);
        }
    }
    assert forall|i: int| 0 <= i < part3.len() implies column_of_given_field(#[trigger] part3[i], u) by {
        if i < part2.len() {
            assert(part3[i] == part2[i]);
        }
    }
    assert forall|i: int| 0 <= i < part4.len() implies column_of_given_field(#[trigger] part4[i], u) by {
        if i < part3.len() {
            assert(part4[i] == part3[i]);
        }
    }
    assert forall|i: int| 0 <= i < cols.len() implies column_of_given_field(#[trigger] cols[i], u) by {
        if i < part4.len() {
            assert(cols[i] == part4[i]);
        }
    }
    if u.display_name is Some {
        assert(cols[0] == part1[0]);
    }
    if u.avatar_context_id is Some {
        assert(cols[part1.len() as int] == part2[part1.len() as int]);
    }
    if u.banner_context_id is Some {
        assert(cols[part2.len() as int] == part3[part2.len() as int]);
    }
    if u.bio is Some {
        assert(cols[part3.len() as int] == part4[part3.len() as int]);
    }
    if u.languages is Some {
        assert(cols[part4.len() as int] == cols.last());
    }
    if cols.len() > 0 {
        let names = cols.map_values(|c: (Seq<char>, SqlParamModel)| c.0);
        let placeholders = Seq::new(cols.len(), |i: int| seq!['$'] + nat_to_decimal((i + 2) as nat));
        let updates = names.map_values(|n: Seq<char>| n + " = EXCLUDED."@ + n);
        let head = "INSERT INTO user_profiles (user_id, "@ + join_spec(names, ", "@)
            + ") VALUES ($1, "@ + join_spec(placeholders, ", "@)
            + ") ON CONFLICT (user_id) DO UPDATE SET "@;
        let sql = head + join_spec(updates, ", "@);
        assert forall|i: int| 0 <= i < cols.len() implies contains_spec(
            sql,
            #[trigger] cols[i].0 + " = EXCLUDED."@ + cols[i].0,
        ) by {
            lemma_join_contains(updates, ", "@, i);
            assert(updates[i] == cols[i].0 + " = EXCLUDED."@ + cols[i].0);
            lemma_contains_within(head, join_spec(updates, ", "@), Seq::<char>::empty(), updates[i]);
            assert(head + join_spec(updates, ", "@) + Seq::<char>::empty() =~= sql);
        }
        let before = "INSERT INTO user_profiles (user_id, "@ + join_spec(names, ", "@)
            + ") VALUES ($1, "@;
        let after = ") ON CONFLICT (user_id) DO UPDATE SET "@ + join_spec(updates, ", "@);
        assert forall|i: int| 0 <= i < cols.len() implies contains_spec(
            sql,
            seq!['$'] + #[trigger] nat_to_decimal((i + 2) as nat),
        ) by {
            lemma_join_contains(placeholders, ", "@, i);
            lemma_contains_within(before, join_spec(placeholders, ", "@), after, placeholders[i]);
            assert(before + join_spec(placeholders, ", "@) + after =~= sql);
        }
    }
}

/// `items` joined by `sep`.
pub open spec fn join_spec(items: Seq<Seq<char>>, sep: Seq<char>) -> Seq<char>
    decreases items.len(),
{
    if items.len() == 0 {
        Seq::<char>::empty()
    } else if items.len() == 1 {
        items[0]
    } else {
        join_spec(items.drop_last(), sep) + sep + items.last()
    }
}

proof fn lemma_join_contains(items: Seq<Seq<char>>, sep: Seq<char>, i: int)
    requires
        0 <= i < items.len(),
    ensures
        contains_spec(join_spec(items, sep), items[i]),
    decreases items.len(),
{
    if items.len() == 1 {
        assert(items[i].subrange(0, items[i].len() as int) =~= items[i]);
        assert(occurs_at(items[i], items[i], 0));
    } else {
        let p = items.drop_last();
        let j = join_spec(p, sep);
        if i < items.len() - 1 {
            lemma_join_contains(p, sep, i);
            assert(p[i] == items[i]);
            lemma_contains_within(Seq::<char>::empty(), j, sep + items.last(), items[i]);
            assert(Seq::<char>::empty() + j + (sep + items.last()) =~= join_spec(items, sep));
        } else {
            assert(items.last().subrange(0, items.last().len() as int) =~= items.last());
            lemma_occurs_within(j + sep, items.last(), Seq::<char>::empty(), items.last(), 0);
            assert(j + sep + items.last() + Seq::<char>::empty() =~= join_spec(items, sep));
        }
    }
}

/// Appends `items` joined by `sep` to `out`.
fn push_joined(out: &mut String, items: &Vec<String>, sep: &str)
    ensures
        final(out)@ == old(out)@ + join_spec(items@.map_values(|s: String| s@), sep@),
{
    let ghost start = out@;
    let ghost all = items@.map_values(|s: String| s@);
    for i in 0..items.len()
        invariant
            all == items@.map_values(|s: String| s@),
            out@ == start + join_spec(all.take(i as int), sep@),
    {
        let ghost before = out@;
        if i > 0 {
            out.append(sep);
        }
        out.append(items[i].as_str());
        proof {
            assert(all.take(i + 1).drop_last() =~= all.take(i as int));
            assert(all.take(i + 1).last() == items@[i as int]@);
            if i == 0 {
                assert(join_spec(all.take(1), sep@) == all.take(1)[0]);
                assert(join_spec(all.take(0), sep@) =~= Seq::<char>::empty());
            }
        }
        assert(out@ =~= start + join_spec(all.take(i + 1), sep@));
    }
    assert(all.take(items.len() as int) =~= all);
}

/// The upsert of a profile: nothing where no field is to change; otherwise
/// `INSERT INTO user_profiles (user_id, <columns>) VALUES ($1, $2, ...) ON
/// CONFLICT (user_id) DO UPDATE SET <column> = EXCLUDED.<column>, ...`,
/// with the user id and then the new values as parameters.
pub open spec fn profile_query_spec(user_id: i64, u: UserProfileUpdate) -> Option<
    (Seq<char>, Seq<SqlParamModel>),
> {
    let cols = profile_columns(u);
    if cols.len() == 0 {
        None
    } else {
        let names = cols.map_values(|c: (Seq<char>, SqlParamModel)| c.0);
        let placeholders = Seq::new(cols.len(), |i: int| seq!['$'] + nat_to_decimal((i + 2) as nat));
        let updates = names.map_values(|n: Seq<char>| n + " = EXCLUDED."@ + n);
        Some(
            (
                "INSERT INTO user_profiles (user_id, "@ + join_spec(names, ", "@) + ") VALUES ($1, "@
                    + join_spec(placeholders, ", "@) + ") ON CONFLICT (user_id) DO UPDATE SET "@
                    + join_spec(updates, ", "@),
                seq![SqlParamModel::BigInt(user_id)] + cols.map_values(
                    |c: (Seq<char>, SqlParamModel)| c.1,
                ),
            ),
        )
    }
}

/// The view of an optional query.
pub open spec fn opt_query_view(q: Option<SqlQuery>) -> Option<(Seq<char>, Seq<SqlParamModel>)> {
    match q {
        Some(q) => Some(query_view(q)),
        None => None,
    }
}

fn push_column(
    names: &mut Vec<String>,
    values: &mut Vec<SqlParam>,
    name: &str,
    value: SqlParam,
)
    ensures
        final(names)@.map_values(|s: String| s@) == old(names)@.map_values(|s: String| s@).push(
            name@,
        ),
        params_view(final(values)@) == params_view(old(values)@).push(value@),
{
    names.push(String::from_str(name));
    assert(names@.map_values(|s: String| s@) =~= old(names)@.map_values(|s: String| s@).push(
        name@,
    ));
    push_param(values, value);
}

fn profile_columns_exec(update: UserProfileUpdate) -> (res: (Vec<String>, Vec<SqlParam>))
    ensures
        res.0@.map_values(|s: String| s@) == profile_columns(update).map_values(
            |c: (Seq<char>, SqlParamModel)| c.0,
        ),
        params_view(res.1@) == profile_columns(update).map_values(
            |c: (Seq<char>, SqlParamModel)| c.1,
        ),
        res.0@.len() == profile_columns(update).len(),
        res.0@.len() <= 5,
{
    let ghost cols = profile_columns(update);
    let mut names: Vec<String> = Vec::new();
    let mut values: Vec<SqlParam> = Vec::new();
    let UserProfileUpdate { display_name, avatar_context_id, banner_context_id, bio, languages } =
        update;
    match display_name {
        Some(v) => push_column(&mut names, &mut values, "display_name", SqlParam::Text(v)),
        None => {},
    }
    match avatar_context_id {
        Some(v) => push_column(&mut names, &mut values, "avatar_context_id", SqlParam::BigInt(v)),
        None => {},
    }
    match banner_context_id {
        Some(v) => push_column(&mut names, &mut values, "banner_context_id", SqlParam::BigInt(v)),
        None => {},
    }
    match bio {
        Some(v) => push_column(&mut names, &mut values, "bio", SqlParam::Text(v)),
        None => {},
    }
    match languages {
        Some(v) => push_column(&mut names, &mut values, "languages", SqlParam::TextArray(v)),
        None => {},
    }
    assert(names@.map_values(|s: String| s@) =~= cols.map_values(
        |c: (Seq<char>, SqlParamModel)| c.0,
    ));
    assert(params_view(values@) =~= cols.map_values(|c: (Seq<char>, SqlParamModel)| c.1));
    (names, values)
}

fn placeholders_and_updates(names: &Vec<String>) -> (res: (Vec<String>, Vec<String>))
    requires
        names@.len() <= 5,
    ensures
        res.0@.map_values(|s: String| s@) == Seq::new(
            names@.len(),
            |k: int| seq!['$'] + nat_to_decimal((k + 2) as nat),
        ),
        res.1@.map_values(|s: String| s@) == names@.map_values(|s: String| s@).map_values(
            |n: Seq<char>| n + " = EXCLUDED."@ + n,
        ),
{
    let mut placeholders: Vec<String> = Vec::new();
    let mut updates: Vec<String> = Vec::new();
    let ghost nv = names@.map_values(|s: String| s@);
    for i in 0..names.len()
        invariant
            nv == names@.map_values(|s: String| s@),
            names@.len() <= 5,
            placeholders@.len() == i,
            updates@.len() == i,
            forall|k: int|
                0 <= k < i ==> #[trigger] placeholders@[k]@ == seq!['$'] + nat_to_decimal(
                    (k + 2) as nat,
                ),
            forall|k: int| 0 <= k < i ==> #[trigger] updates@[k]@ == nv[k] + " = EXCLUDED."@ + nv[k],
    {
        let mut ph = String::new();
        push_char(&mut ph, '$');
        push_decimal(&mut ph, (i as u64) + 2);
        assert(ph@ =~= seq!['$'] + nat_to_decimal((i + 2) as nat));
        placeholders.push(ph);
        let mut up = String::from_str(names[i].as_str());
        up.append(" = EXCLUDED.");
        up.append(names[i].as_str());
        assert(nv[i as int] == names@[i as int]@);
        updates.push(up);
    }
    assert(placeholders@.map_values(|s: String| s@) =~= Seq::new(
        names@.len(),
        |k: int| seq!['$'] + nat_to_decimal((k + 2) as nat),
    ));
    assert(updates@.map_values(|s: String| s@) =~= nv.map_values(
        |n: Seq<char>| n + " = EXCLUDED."@ + n,
    ));
    (placeholders, updates)
}

fn prefixed_params(first: SqlParam, values: &Vec<SqlParam>) -> (res: Vec<SqlParam>)
    ensures
        params_view(res@) == seq![first@] + params_view(values@),
{
    let mut params: Vec<SqlParam> = Vec::new();
    let ghost f = first@;
    push_param(&mut params, first);
    let ghost vv = params_view(values@);
    for i in 0..values.len()
        invariant
            vv == params_view(values@),
            params_view(params@) == seq![f] + vv.take(i as int),
    {
        let v = clone_param(&values[i]);
        push_param(&mut params, v);
        assert(vv.take(i + 1) =~= vv.take(i as int).push(vv[i as int]));
        assert(params_view(params@) =~= seq![f] + vv.take(i + 1));
    }
    assert(vv.take(values.len() as int) =~= vv);
    params
}

/// The upsert of `user_id`'s profile, or `None` where nothing is to change.
pub fn profile_update_query(user_id: i64, update: UserProfileUpdate) -> (res: Option<SqlQuery>)
    ensures
        opt_query_view(res) == profile_query_spec(user_id, update),
{
    let ghost cols = profile_columns(update);
    let (names, values) = profile_columns_exec(update);
    if names.len() == 0 {
        return None;
    }
    let (placeholders, updates) = placeholders_and_updates(&names);
    let mut sql = String::from_str("INSERT INTO user_profiles (user_id, ");
    push_joined(&mut sql, &names, ", ");
    sql.append(") VALUES ($1, ");
    push_joined(&mut sql, &placeholders, ", ");
    sql.append(") ON CONFLICT (user_id) DO UPDATE SET ");
    push_joined(&mut sql, &updates, ", ");
    let params = prefixed_params(SqlParam::BigInt(user_id), &values);
    Some(SqlQuery { sql, params })
}

fn clone_strings(v: &Vec<String>) -> (res: Vec<String>)
    ensures
        res@.map_values(|s: String| s@) == v@.map_values(|s: String| s@),
{
    let mut out: Vec<String> = Vec::new();
    for i in 0..v.len()
        invariant
            out@.len() == i,
            forall|k: int| 0 <= k < i ==> #[trigger] out@[k]@ == v@[k]@,
    {
        out.push(v[i].clone());
    }
    assert(out@.map_values(|s: String| s@) =~= v@.map_values(|s: String| s@));
    out
}

fn clone_param(p: &SqlParam) -> (res: SqlParam)
    ensures
        res@ == p@,
{
    match p {
        SqlParam::Int(v) => SqlParam::Int(*v),
        SqlParam::BigInt(v) => SqlParam::BigInt(*v),
        SqlParam::Text(t) => SqlParam::Text(t.clone()),
        SqlParam::TextArray(v) => SqlParam::TextArray(clone_strings(v)),
    }
}

// ---------------------------------------------------------------------------
// File contexts
// ---------------------------------------------------------------------------

/// Appending `new_object` to a file context whose row is `row` (its objects
/// and how many more it allows): the new objects and allowance, or the error
/// for a missing context or one that allows no more.
pub open spec fn append_plan_spec(row: Option<(Seq<Seq<char>>, i32)>, new_object: Seq<char>) -> Result<
    (Seq<Seq<char>>, i32),
    &'static str,
> {
    match row {
        None => Err("CONTEXT_NOT_FOUND"),
        Some((objects, allowed)) => if allowed <= 0 {
            Err("MAX_COUNT_EXCEED")
        } else {
            Ok((objects.push(new_object), (allowed - 1) as i32))
        },
    }
}

/// The objects and allowance of a file context after appending `new_object`.
pub fn append_plan(row: Option<(Vec<String>, i32)>, new_object: &str) -> (res: Result<
    (Vec<String>, i32),
    &'static str,
>)
    ensures
        match res {
            Ok((objects, allowed)) => append_plan_spec(
                match row {
                    Some((o, a)) => Some((o@.map_values(|s: String| s@), a)),
                    None => None,
                },
                new_object@,
            ) == Ok::<(Seq<Seq<char>>, i32), &'static str>(
                (objects@.map_values(|s: String| s@), allowed),
            ),
            Err(e) => append_plan_spec(
                match row {
                    Some((o, a)) => Some((o@.map_values(|s: String| s@), a)),
                    None => None,
                },
                new_object@,
            ) == Err::<(Seq<Seq<char>>, i32), &'static str>(e),
        },
{
    match row {
        None => Err("CONTEXT_NOT_FOUND"),
        Some((objects, allowed_count)) => {
            if allowed_count <= 0 {
                return Err("MAX_COUNT_EXCEED");
            }
            let mut objects = objects;
            let ghost before = objects@.map_values(|s: String| s@);
            objects.push(String::from_str(new_object));
            assert(objects@.map_values(|s: String| s@) =~= before.push(new_object@));
            Ok((objects, allowed_count - 1))
        },
    }
}

/// The query for file contexts to clean up: those this server handles
/// (context id modulo the number of servers equal to its id), or all of
/// them, at most `limit`.
pub open spec fn contexts_for_deletion_spec(
    use_server_id: bool,
    limit: i32,
    server_id: u8,
    total_servers: u8,
) -> (Seq<char>, Seq<SqlParamModel>) {
    if use_server_id {
        (
            CONTEXTS_FOR_DELETION_BY_SERVER_SQL@,
            seq![
                SqlParamModel::BigInt(server_id as i64),
                SqlParamModel::BigInt(total_servers as i64),
                SqlParamModel::BigInt(limit as i64),
            ],
        )
    } else {
        (CONTEXTS_FOR_DELETION_SQL@, seq![SqlParamModel::Int(limit)])
    }
}

/// The query for file contexts to clean up.
pub fn contexts_for_deletion_query(
    use_server_id: bool,
    limit: i32,
    server_id: u8,
    total_servers: u8,
) -> (res: SqlQuery)
    ensures
        query_view(res) == contexts_for_deletion_spec(use_server_id, limit, server_id, total_servers),
{
    let mut params: Vec<SqlParam> = Vec::new();
    if use_server_id {
        push_param(&mut params, SqlParam::BigInt(server_id as i64));
        push_param(&mut params, SqlParam::BigInt(total_servers as i64));
        push_param(&mut params, SqlParam::BigInt(limit as i64));
        assert(params_view(params@) =~= seq![
            SqlParamModel::BigInt(server_id as i64),
            SqlParamModel::BigInt(total_servers as i64),
            SqlParamModel::BigInt(limit as i64),
        ]);
        SqlQuery { sql: String::from_str(CONTEXTS_FOR_DELETION_BY_SERVER_SQL), params }
    } else {
        push_param(&mut params, SqlParam::Int(limit));
        assert(params_view(params@) =~= seq![SqlParamModel::Int(limit)]);
        SqlQuery { sql: String::from_str(CONTEXTS_FOR_DELETION_SQL), params }
    }
}

} // verus!
