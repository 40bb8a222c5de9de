[package]
name = "datafusion_postgres"
version = "0.1.0"
edition = "2021"
publish = false

[dependencies]
sqlparser = { version = "=0.62.0", features = ["visitor"] }
pgwire = { version = "=0.42.1", default-features = false, features = ["server-api", "pg-ext-types"] }
postgres-types = "=0.2.14"
rust_decimal = { version = "=1.43.0", features = ["db-postgres"] }
chrono = "=0.4.45"
pg_interval = "=0.6.0"
arrow-array = { version = "=59.3.2", features = ["chrono-tz"] }
arrow-schema = "=59.3.2"
geoarrow-schema = "=0.9.0"
async-trait = "=0.1.92"
futures = "=0.3.34"
log = "=0.4.35"
tokio = { version = "=1.54.1", features = ["sync", "time"] }
bytes = "=1.12.1"
