use sharinflame::state::{Config, ConfigVars, PostgresConfig, PostgresVars, RedisConfig, RedisVars};

fn vars() -> ConfigVars {
    ConfigVars {
        secret_auth_key: Some("a".into()),
        secret_refresh_key: Some("r".into()),
        signature_key: Some("s".into()),
        url: None,
        server_id: None,
        total_servers: None,
        cdn_secret_key: Some("c".into()),
        cdn_secret_key_n: Some("n".into()),
        vapid_secret: Some("vs".into()),
        vapid_pub: Some("vp".into()),
        brevo_api_key: Some("b".into()),
    }
}

#[test]
fn defaults() {
    let c = Config::from_vars(vars()).unwrap();
    assert_eq!(c.url, "localhost:8080");
    assert_eq!(c.server_id, 0);
    assert_eq!(c.total_servers, 1);
    assert_eq!(c.cdn_secret_key_n, "n");
}

#[test]
fn numbers_are_read() {
    let mut v = vars();
    v.server_id = Some("3".into());
    v.total_servers = Some("+4".into());
    v.url = Some("0.0.0.0:1".into());
    let c = Config::from_vars(v).unwrap();
    assert_eq!((c.server_id, c.total_servers), (3, 4));
    assert_eq!(c.url, "0.0.0.0:1");
}

#[test]
fn errors_name_the_first_bad_variable() {
    let mut v = vars();
    v.secret_auth_key = None;
    v.brevo_api_key = None;
    assert_eq!(Config::from_vars(v).unwrap_err(), "$SECRET_AUTH_KEY missing");
    let mut v = vars();
    v.server_id = Some("256".into());
    assert_eq!(Config::from_vars(v).unwrap_err(), "SERVER_ID wrong type");
    let mut v = vars();
    v.total_servers = Some("x".into());
    assert_eq!(Config::from_vars(v).unwrap_err(), "TOTAL_SERVER wrong type");
    let mut v = vars();
    v.cdn_secret_key_n = None;
    assert_eq!(Config::from_vars(v).unwrap_err(), "CDN_SECRET_KEY missing");
    let mut v = vars();
    v.vapid_pub = None;
    assert_eq!(Config::from_vars(v).unwrap_err(), "VAPID_PUB missing");
}

#[test]
fn redis_and_postgres() {
    let r = RedisConfig::from_vars(RedisVars {
        cache_url: Some("redis://a".into()),
        sessions_url: Some("redis://b".into()),
        pubsub_url: None,
    });
    assert_eq!(r.unwrap_err(), "PUBSUB_REDIS_URL missing");
    let p = PostgresConfig::from_vars(PostgresVars {
        host: Some("h".into()),
        user: Some("u".into()),
        database: Some("d".into()),
        password: Some("p".into()),
        connections: None,
    })
    .unwrap();
    assert_eq!(p.connections, 1000);
    let p = PostgresConfig::from_vars(PostgresVars {
        host: Some("h".into()),
        user: None,
        database: Some("d".into()),
        password: Some("p".into()),
        connections: Some("-1".into()),
    });
    assert_eq!(p.unwrap_err(), "POSTGRES_USER missing");
}
