//! Business rules of the Bim! game back end: accounts and sessions,
//! the coin wallet, the inventory of game features, the registry of game
//! servers, the bookkeeping of games and their rewards, and the SQL text
//! that the storage layer sends to Postgres.
//!
//! Every operation that talks to the database, to the network or to the
//! clock lives in the service around this crate; the functions here take
//! what was read as plain values and decide what to answer and what to
//! write.

pub mod error;
pub mod text;
pub mod clock;
pub mod game_servers;
pub mod sql;
pub mod sorting;
pub mod games;
pub mod wallet;
pub mod game_feature_slots;
pub mod game_features;
pub mod shop;
pub mod app_config;
pub mod flat_client_config;
pub mod inventory;
pub mod legacy;
pub mod sessions;
pub mod leads;
pub mod users;
pub mod billing;
pub mod token;
pub mod schema;
pub mod gates;
