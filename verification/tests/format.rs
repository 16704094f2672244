use sharinflame::format::{
    normalize_tag, normalize_tags, parse_cursor, parse_number_list, parse_tuple,
};

#[test]
fn tags_are_trimmed_lowered_and_dashed() {
    assert_eq!(normalize_tag("  Hello World!! "), "hello-world");
    assert_eq!(normalize_tag("rust\t \nlang"), "rust-lang");
    assert_eq!(normalize_tag("a_b-c"), "a_b-c");
}

#[test]
fn tags_are_decomposed() {
    assert_eq!(normalize_tag("Ｈｅｌｌｏ"), "hello");
}

#[test]
fn tags_are_cut_to_fifty_characters() {
    let long = "x".repeat(80);
    assert_eq!(normalize_tag(&long), "x".repeat(50));
}

#[test]
fn punctuation_only_tag_is_empty() {
    assert_eq!(normalize_tag("!!!"), "");
}

#[test]
fn whitespace_runs_become_one_dash() {
    assert_eq!(normalize_tag("a  b\tc\u{3000}\u{00a0}d"), "a-b-c-d");
}

#[test]
fn tags_are_deduplicated_in_order() {
    let raw = vec!["Rust".to_string(), " rust ".into(), "!!".into(), "Go".into(), "RUST".into()];
    assert_eq!(normalize_tags(&raw), vec!["rust".to_string(), "go".to_string()]);
}

#[test]
fn number_lists() {
    assert_eq!(parse_number_list("1, 2,3"), Some(vec![1, 2, 3]));
    assert_eq!(parse_number_list("-5"), Some(vec![-5]));
    assert_eq!(parse_number_list("1,a"), None);
    assert_eq!(parse_number_list(""), None);
    assert_eq!(parse_number_list("1,,2"), None);
    assert_eq!(parse_number_list("9223372036854775808"), None);
}

#[test]
fn cursors() {
    assert_eq!(parse_cursor("1,2,3"), Some((1, 2, 3)));
    assert_eq!(parse_cursor("1, 2 ,3,4"), Some((1, 2, 3)));
    assert_eq!(parse_cursor("1,2"), None);
    assert_eq!(parse_cursor("1,x,3"), None);
    assert_eq!(parse_tuple(" 5 , 6 "), Some((5, 6)));
    assert_eq!(parse_tuple("5"), None);
    assert_eq!(parse_tuple("+5,-6,zz"), Some((5, -6)));
}
