//! Configuration of the service, read from the values of its environment
//! variables.
use vstd::prelude::*;

use crate::text::{chars_of, parse_unsigned, parse_unsigned_spec};

verus! {

/// Where the three Redis instances are.
#[derive(Debug, Clone)]
pub struct RedisConfig {
    pub cache_url: String,
    pub sessions_url: String,
    pub pubsub_url: String,
}

/// How to reach PostgreSQL.
#[derive(Debug, Clone)]
pub struct PostgresConfig {
    pub host: String,
    pub user: String,
    pub database: String,
    pub connections: u32,
    pub password: String,
}

/// Keys and identity of this server.
#[derive(Debug, Clone)]
pub struct Config {
    pub secret_auth_key: String,
    pub secret_refresh_key: String,
    pub signature_key: String,
    pub url: String,
    pub server_id: u8,
    pub total_servers: u8,
    pub cdn_secret_key: String,
    pub cdn_secret_key_n: String,
    pub vapid_secret: String,
    pub vapid_pub: String,
    pub brevo_api_key: String,
}

/// The values of the environment variables that `Config` reads, `None`
/// where a variable is not set.
#[derive(Debug, Clone, Default)]
pub struct ConfigVars {
    pub secret_auth_key: Option<String>,
    pub secret_refresh_key: Option<String>,
    pub signature_key: Option<String>,
    pub url: Option<String>,
    pub server_id: Option<String>,
    pub total_servers: Option<String>,
    pub cdn_secret_key: Option<String>,
    pub cdn_secret_key_n: Option<String>,
    pub vapid_secret: Option<String>,
    pub vapid_pub: Option<String>,
    pub brevo_api_key: Option<String>,
}

/// The values of the environment variables that `RedisConfig` reads.
#[derive(Debug, Clone, Default)]
pub struct RedisVars {
    pub cache_url: Option<String>,
    pub sessions_url: Option<String>,
    pub pubsub_url: Option<String>,
}

/// The values of the environment variables that `PostgresConfig` reads.
#[derive(Debug, Clone, Default)]
pub struct PostgresVars {
    pub host: Option<String>,
    pub user: Option<String>,
    pub database: Option<String>,
    pub password: Option<String>,
    pub connections: Option<String>,
}

/// The view of an optional string.
pub open spec fn opt_view(o: Option<String>) -> Option<Seq<char>> {
    match o {
        Some(s) => Some(s@),
        None => None,
    }
}

/// The number a variable's value reads as, no larger than `max`, with
/// `default` standing for an unset variable: `None` where it does not read.
pub open spec fn number_or(v: Option<Seq<char>>, default: nat, max: nat) -> Option<nat> {
    match v {
        None => Some(default),
        Some(s) => parse_unsigned_spec(s, max),
    }
}

fn number_or_exec(v: &Option<String>, default: u64, max: u64) -> (res: Option<u64>)
    requires
        default <= max,
    ensures
        match res {
            Some(n) => number_or(opt_view(*v), default as nat, max as nat) == Some(n as nat),
            None => number_or(opt_view(*v), default as nat, max as nat) is None,
        },
{
    match v {
        None => Some(default),
        Some(s) => {
            let cs = chars_of(s.as_str());
            parse_unsigned(cs.as_slice(), max)
        },
    }
}

fn take_string(v: Option<String>) -> (res: Option<String>)
    ensures
        opt_view(res) == opt_view(v),
{
    v
}

impl ConfigVars {
    /// Which variable, in the order they are read, is missing or does not
    /// read as a number; `None` where all are in order.
    pub open spec fn first_error(self) -> Option<&'static str> {
        if self.secret_auth_key is None {
            Some("$SECRET_AUTH_KEY missing")
        } else if self.secret_refresh_key is None {
            Some("$SECRET_REFRESH_KEY missing")
        } else if self.signature_key is None {
            Some("$SIGNATURE_KEY missing")
        } else if number_or(opt_view(self.server_id), 0, 255) is None {
            Some("SERVER_ID wrong type")
        } else if number_or(opt_view(self.total_servers), 1, 255) is None {
            Some("TOTAL_SERVER wrong type")
        } else if self.cdn_secret_key is None {
            Some("CDN_SECRET_KEY missing")
        } else if self.cdn_secret_key_n is None {
            Some("CDN_SECRET_KEY missing")
        } else if self.vapid_secret is None {
            Some("VAPID_SECRET missing")
        } else if self.vapid_pub is None {
            Some("VAPID_PUB missing")
        } else if self.brevo_api_key is None {
            Some("BREVO_API_KEY missing")
        } else {
            None
        }
    }
}

impl Config {
    /// The configuration from the variables' values: the URL defaults to
    /// `localhost:8080`, the server id to 0 and the number of servers to 1;
    /// the other variables must be set. The error is the message of the
    /// first variable, in reading order, that is missing or not a number.
    pub fn from_vars(vars: ConfigVars) -> (res: Result<Config, &'static str>)
        ensures
            match res {
                Err(e) => vars.first_error() == Some(e),
                Ok(c) => {
                    &&& vars.first_error() is None
                    &&& Some(c.secret_auth_key@) == opt_view(vars.secret_auth_key)
                    &&& Some(c.secret_refresh_key@) == opt_view(vars.secret_refresh_key)
                    &&& Some(c.signature_key@) == opt_view(vars.signature_key)
                    &&& c.url@ == match opt_view(vars.url) {
                        Some(u) => u,
                        None => "localhost:8080"@,
                    }
                    &&& number_or(opt_view(vars.server_id), 0, 255) == Some(c.server_id as nat)
                    &&& number_or(opt_view(vars.total_servers), 1, 255) == Some(
                        c.total_servers as nat,
                    )
                    &&& Some(c.cdn_secret_key@) == opt_view(vars.cdn_secret_key)
                    &&& Some(c.cdn_secret_key_n@) == opt_view(vars.cdn_secret_key_n)
                    &&& Some(c.vapid_secret@) == opt_view(vars.vapid_secret)
                    &&& Some(c.vapid_pub@) == opt_view(vars.vapid_pub)
                    &&& Some(c.brevo_api_key@) == opt_view(vars.brevo_api_key)
                },
            },
    {
        let server_id = number_or_exec(&vars.server_id, 0, 255);
        let total_servers = number_or_exec(&vars.total_servers, 1, 255);
        let secret_auth_key = match take_string(vars.secret_auth_key) {
            Some(v) => v,
            None => {
                return Err("$SECRET_AUTH_KEY missing");
            },
        };
        let secret_refresh_key = match take_string(vars.secret_refresh_key) {
            Some(v) => v,
            None => {
                return Err("$SECRET_REFRESH_KEY missing");
            },
        };
        let signature_key = match take_string(vars.signature_key) {
            Some(v) => v,
            None => {
                return Err("$SIGNATURE_KEY missing");
            },
        };
        let url = match take_string(vars.url) {
            Some(v) => v,
            None => String::from_str("localhost:8080"),
        };
        let server_id = match server_id {
            Some(v) => v as u8,
            None => {
                return Err("SERVER_ID wrong type");
            },
        };
        let total_servers = match total_servers {
            Some(v) => v as u8,
            None => {
                return Err("TOTAL_SERVER wrong type");
            },
        };
        let cdn_secret_key = match take_string(vars.cdn_secret_key) {
            Some(v) => v,
            None => {
                return Err("CDN_SECRET_KEY missing");
            },
        };
        let cdn_secret_key_n = match take_string(vars.cdn_secret_key_n) {
            Some(v) => v,
            None => {
                return Err("CDN_SECRET_KEY missing");
            },
        };
        let vapid_secret = match take_string(vars.vapid_secret) {
            Some(v) => v,
            None => {
                return Err("VAPID_SECRET missing");
            },
        };
        let vapid_pub = match take_string(vars.vapid_pub) {
            Some(v) => v,
            None => {
                return Err("VAPID_PUB missing");
            },
        };
        let brevo_api_key = match take_string(vars.brevo_api_key) {
            Some(v) => v,
            None => {
                return Err("BREVO_API_KEY missing");
            },
        };
        Ok(
            Config {
                secret_auth_key,
                secret_refresh_key,
                signature_key,
                url,
                server_id,
                total_servers,
                cdn_secret_key,
                cdn_secret_key_n,
                vapid_secret,
                vapid_pub,
                brevo_api_key,
            },
        )
    }
}

impl RedisVars {
    /// Which variable, in reading order, is missing.
    pub open spec fn first_error(self) -> Option<&'static str> {
        if self.cache_url is None {
            Some("CACHE_REDIS_URL missing")
        } else if self.sessions_url is None {
            Some("SESSIONS_REDIS_URL missing")
        } else if self.pubsub_url is None {
            Some("PUBSUB_REDIS_URL missing")
        } else {
            None
        }
    }
}

impl RedisConfig {
    /// The Redis configuration from the variables' values, all of which must
    /// be set; the error is the message of the first missing one.
    pub fn from_vars(vars: RedisVars) -> (res: Result<RedisConfig, &'static str>)
        ensures
            match res {
                Err(e) => vars.first_error() == Some(e),
                Ok(c) => {
                    &&& vars.first_error() is None
                    &&& Some(c.cache_url@) == opt_view(vars.cache_url)
                    &&& Some(c.sessions_url@) == opt_view(vars.sessions_url)
                    &&& Some(c.pubsub_url@) == opt_view(vars.pubsub_url)
                },
            },
    {
        let cache_url = match take_string(vars.cache_url) {
            Some(v) => v,
            None => {
                return Err("CACHE_REDIS_URL missing");
            },
        };
        let sessions_url = match take_string(vars.sessions_url) {
            Some(v) => v,
            None => {
                return Err("SESSIONS_REDIS_URL missing");
            },
        };
        let pubsub_url = match take_string(vars.pubsub_url) {
            Some(v) => v,
            None => {
                return Err("PUBSUB_REDIS_URL missing");
            },
        };
        Ok(RedisConfig { cache_url, sessions_url, pubsub_url })
    }
}

impl PostgresVars {
    /// Which variable, in reading order, is missing or not a number.
    pub open spec fn first_error(self) -> Option<&'static str> {
        if self.host is None {
            Some("POSTGRES_HOST missing")
        } else if self.user is None {
            Some("POSTGRES_USER missing")
        } else if self.database is None {
            Some("POSTGRES_DATABASE missing")
        } else if self.password is None {
            Some("POSTGRES_PASSWORD missing")
        } else if number_or(opt_view(self.connections), 1000, 4294967295) is None {
            Some("POSTGRES_CONNECTIONS wrong type")
        } else {
            None
        }
    }
}

impl PostgresConfig {
    /// The PostgreSQL configuration from the variables' values: the number of
    /// connections defaults to 1000, the others must be set; the error is the
    /// message of the first variable, in reading order, that is missing or
    /// not a number.
    pub fn from_vars(vars: PostgresVars) -> (res: Result<PostgresConfig, &'static str>)
        ensures
            match res {
                Err(e) => vars.first_error() == Some(e),
                Ok(c) => {
                    &&& vars.first_error() is None
                    &&& Some(c.host@) == opt_view(vars.host)
                    &&& Some(c.user@) == opt_view(vars.user)
                    &&& Some(c.database@) == opt_view(vars.database)
                    &&& Some(c.password@) == opt_view(vars.password)
                    &&& number_or(opt_view(vars.connections), 1000, 4294967295) == Some(
                        c.connections as nat,
                    )
                },
            },
    {
        let connections = number_or_exec(&vars.connections, 1000, 4294967295);
        let host = match take_string(vars.host) {
            Some(v) => v,
            None => {
                return Err("POSTGRES_HOST missing");
            },
        };
        let user = match take_string(vars.user) {
            Some(v) => v,
            None => {
                return Err("POSTGRES_USER missing");
            },
        };
        let database = match take_string(vars.database) {
            Some(v) => v,
            None => {
                return Err("POSTGRES_DATABASE missing");
            },
        };
        let password = match take_string(vars.password) {
            Some(v) => v,
            None => {
                return Err("POSTGRES_PASSWORD missing");
            },
        };
        let connections = match connections {
            Some(v) => v as u32,
            None => {
                return Err("POSTGRES_CONNECTIONS wrong type");
            },
        };
        Ok(PostgresConfig { host, user, database, connections, password })
    }
}

} // verus!
