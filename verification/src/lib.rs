//! A registry of giveaways: owned containers of rewards that participants
//! claim one at a time, with an owner-gated administrative surface and a
//! participant-facing roll / confirm / deny surface.

pub mod cell;
pub mod error;
pub mod formatters;
pub mod giveaway;
pub mod handlers;
pub mod ledger;
pub mod listing;
pub mod manager;
pub mod models;
pub mod parser;
pub mod registry;
pub mod strategies;
pub mod text;
pub mod utils;
