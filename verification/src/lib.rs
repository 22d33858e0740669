//! A cross-venue perpetual-futures funding-rate oracle and relayer.
//!
//! The crate computes instantaneous funding rates for two perpetual
//! exchanges ("venue D" and "venue M"), maintains exponential moving
//! averages of those rates in an on-chain funding record, and prepares
//! the transactions that publish the averages.

pub mod address;
pub mod addresses;
pub mod args;
pub mod book;
pub mod codec;
pub mod drift;
pub mod errors;
pub mod listing;
pub mod mango;
pub mod oracle;
pub mod pda;
pub mod program;
pub mod record;
pub mod relayer;
pub mod safe_math;
pub mod u192;
pub mod wsclient;
