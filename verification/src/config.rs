//! The configuration of a service built on the core.
use vstd::prelude::*;
use vstd::string::StringExecFns;

verus! {

/// Where the HTTP transport listens.
#[derive(Debug, PartialEq, Eq)]
pub struct HttpConfig {
    pub bind_addr: String,
}

/// How the database is reached.
#[derive(Debug, PartialEq, Eq)]
pub struct DatabaseConfig {
    pub url: String,
    pub max_connections: u32,
}

/// The configuration of a service.
#[derive(Debug, PartialEq, Eq)]
pub struct AppConfig {
    pub service_name: String,
    pub log_level: Option<String>,
    pub http: HttpConfig,
    pub database: DatabaseConfig,
}

impl Default for DatabaseConfig {
    fn default() -> (config: Self)
        ensures
            config.url@ == "postgres://localhost:5432/cassandra"@,
            config.max_connections == 5,
    {
        DatabaseConfig {
            url: String::from_str("postgres://localhost:5432/cassandra"),
            max_connections: 5,
        }
    }
}

impl Default for AppConfig {
    fn default() -> (config: Self)
        ensures
            config.service_name@ == "cassandra-gateway"@,
            config.log_level matches Some(level) && level@ == "info"@,
            config.http.bind_addr@ == "127.0.0.1:8080"@,
            config.database.url@ == "postgres://localhost:5432/cassandra"@,
            config.database.max_connections == 5,
    {
        AppConfig {
            service_name: String::from_str("cassandra-gateway"),
            log_level: Some(String::from_str("info")),
            http: HttpConfig { bind_addr: String::from_str("127.0.0.1:8080") },
            database: DatabaseConfig::default(),
        }
    }
}

} // verus!
