pub mod text;
pub mod http;
pub mod stats;
pub mod connection;
pub mod battle;
pub mod protocol;
pub mod roster;
pub mod hive;
pub mod agent;
pub mod request;
