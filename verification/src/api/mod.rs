//! The requests of the exchange's clients. A request takes the outcome of the session check; what
//! it needs of the store it asks step by step.

pub mod account;
pub mod admin;
pub mod auth;
pub mod market;
pub mod orders;
