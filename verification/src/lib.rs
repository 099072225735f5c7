pub mod auth;
pub mod config;
pub mod errors;
pub mod health;
pub mod inat;
pub mod kv;
pub mod quiz;
pub mod random;
pub mod routes;
pub mod session;
pub mod users;
