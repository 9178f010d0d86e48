//! Many small SQLite databases behind one HTTP process: the rules of the service.

pub mod api;
pub mod cells;
pub mod config;
pub mod db;
pub mod duration;
pub mod error;
pub mod json;
pub mod laws;
pub mod leases;
pub mod metrics;
pub mod number;
pub mod pool;
pub mod registry;
pub mod scrape;
pub mod seconds;
pub mod text;
