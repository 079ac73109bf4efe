//! A simulated crypto exchange: order execution, a limit order book, accounts and sessions.

pub mod account_laws;
pub mod api;
pub mod auth;
pub mod config;
pub mod db;
pub mod decimal;
pub mod engine;
pub mod error;
pub mod ledger;
pub mod models;
pub mod order_book;
pub mod order_laws;
pub mod pnl;
pub mod pnl_laws;
pub mod profit_laws;
pub mod protocol;
pub mod service_laws;
pub mod startup;
pub mod step_laws;
pub mod store;
pub mod text;
pub mod text_laws;
pub mod timestamp;
pub mod ws_client;
