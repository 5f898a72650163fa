//! The persistence and reconciliation core of a community chat bot: an
//! event-sourced state store (an append-only log of domain events reduced
//! into a materialized snapshot) and a declarative server-structure
//! reconciler that plans the operations bringing a guild's remote channel and
//! role topology in line with a desired configuration.
pub mod assoc;
pub mod battle;
pub mod config;
pub mod db;
pub mod ids;
pub mod items;
pub mod laws;
pub mod places;
pub mod reconcile;
pub mod rng;
pub mod state;
pub mod user;
pub mod util;
