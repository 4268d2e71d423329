//! Plugin marketplace: listings and per-user installations.
pub mod installation;
pub mod listing;
