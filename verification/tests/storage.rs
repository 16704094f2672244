use sharinflame::state::{Config, ConfigVars};
use sharinflame::storage::{
    build_get_link, build_get_link_at, build_links, build_links_at, normalize_url, operation_entries,
    public_url, signed_token_from_payload, strip_leading_chars, Operation, PUBLIC_PATH,
};

fn config() -> Config {
    Config::from_vars(ConfigVars {
        secret_auth_key: Some("a".into()),
        secret_refresh_key: Some("r".into()),
        signature_key: Some("s".into()),
        url: None,
        server_id: None,
        total_servers: None,
        cdn_secret_key: Some("cdnkey".into()),
        cdn_secret_key_n: Some("3".into()),
        vapid_secret: Some("v".into()),
        vapid_pub: Some("p".into()),
        brevo_api_key: Some("b".into()),
    })
    .unwrap()
}

#[test]
fn operation_names() {
    assert_eq!(Operation::PUT.to_string(), "PUT");
    assert_eq!(Operation::DELETE.to_string(), "DELETE");
    assert_eq!(Operation::GET.to_string(), "GET");
    assert_eq!(Operation::HEAD.to_string(), "HEAD");
}

#[test]
fn bare_paths_become_public_urls() {
    assert_eq!(
        normalize_url(Some("avatars/1.webp".into())),
        Some("https://storage.sharinflame.com/avatars/1.webp".to_string())
    );
    assert_eq!(
        normalize_url(Some("https://x.org/a".into())),
        Some("https://x.org/a".to_string())
    );
    assert_eq!(normalize_url(None), None);
}

#[test]
fn normalizing_twice_changes_nothing() {
    let once = normalize_url(Some("a/b".into()));
    assert_eq!(normalize_url(once.clone()), once);
}

#[test]
fn public_url_joins_path() {
    assert_eq!(public_url("x"), format!("{}/x", PUBLIC_PATH));
}

#[test]
fn leading_slashes_are_stripped() {
    let s: Vec<char> = "//a/b/".chars().collect();
    assert_eq!(strip_leading_chars(&s, '/').into_iter().collect::<String>(), "a/b/");
}

#[test]
fn operations_become_entries() {
    let e = operation_entries(&[(Operation::GET, "/a/b"), (Operation::PUT, "c")]);
    assert_eq!(e, vec!["GET:a/b".to_string(), "PUT:c".to_string()]);
}

#[test]
fn storage_token_signs_payload() {
    let json = br#"{"expires":1700000060.0,"allowed_operations":["DELETE:a/b"]}"#;
    assert_eq!(
        signed_token_from_payload(json, &config()),
        "LV 3.eyJleHBpcmVzIjoxNzAwMDAwMDYwLjAsImFsbG93ZWRfb3BlcmF0aW9ucyI6WyJERUxFVEU6YS9iIl19.RgIMXxsDYxZzGY0AeSOWh2nc2HaSBwYd7u+K0u4MsSc="
    );
}

#[test]
fn public_objects_need_no_token() {
    assert_eq!(
        build_get_link_at("public/avatars/1.webp", 3, 1_700_000_000, &config()),
        Some("https://storage.sharinflame.com/public/avatars/1.webp".to_string())
    );
}

#[test]
fn private_links_expire_at_end_of_day() {
    assert_eq!(
        build_get_link_at("private/1/x.png", 3, 1_700_000_000, &config()),
        Some("https://storage.sharinflame.com/private/1/x.png?token=lv.3.MTcwMDI2NTU5OQ.Q3H5gzFa2oVdo1b2eKisXLERTzeXckXCAu7pqQqQZvs".to_string())
    );
}

#[test]
fn links_beyond_chrono_range_are_refused() {
    assert_eq!(build_get_link_at("private/1/x.png", i64::MAX / 86400, 0, &config()), None);
}

#[test]
fn links_from_the_clock() {
    let l = build_get_link("private/2/y", 3, &config()).unwrap();
    assert!(l.starts_with("https://storage.sharinflame.com/private/2/y?token=lv.3."));
    let all = build_links(vec!["public/a".into(), "b".into()], &config()).unwrap();
    assert_eq!(all.len(), 2);
    assert_eq!(all[0], "https://storage.sharinflame.com/public/a");
    assert!(all[1].starts_with("https://storage.sharinflame.com/b?token=lv.3."));
}

#[test]
fn build_links_of_public_objects_always_succeeds() {
    let links = build_links(vec!["public/a.webp".to_string(), "public/b/c".to_string()], &config());
    assert_eq!(
        links,
        Some(vec![
            format!("{}/public/a.webp", PUBLIC_PATH),
            format!("{}/public/b/c", PUBLIC_PATH)
        ])
    );
    assert_eq!(build_links(Vec::new(), &config()), Some(Vec::new()));
}

#[test]
fn links_at_one_reading_share_it() {
    let from = vec!["public/a".to_string(), "private/1/x.png".to_string(), "p/2".to_string()];
    let links = build_links_at(&from, Some(1_700_000_000), &config()).unwrap();
    assert_eq!(links[0], build_get_link_at("public/a", 3, 1_700_000_000, &config()).unwrap());
    assert_eq!(
        links[1],
        build_get_link_at("private/1/x.png", 3, 1_700_000_000, &config()).unwrap()
    );
    assert_eq!(links[2], build_get_link_at("p/2", 3, 1_700_000_000, &config()).unwrap());
}

#[test]
fn links_without_a_clock_reading() {
    let public = vec!["public/a".to_string()];
    assert_eq!(
        build_links_at(&public, None, &config()),
        Some(vec![format!("{}/public/a", PUBLIC_PATH)])
    );
    let private = vec!["public/a".to_string(), "private/1/x.png".to_string()];
    assert_eq!(build_links_at(&private, None, &config()), None);
    assert_eq!(build_links_at(&private, Some(i64::MAX), &config()), None);
}
