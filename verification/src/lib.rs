//! Utilities for NEAR contracts: staked relayers, unwrapping with a message, ways to return,
//! and the macros that generate the code around them.

pub mod args_laws;
pub mod config;
pub mod contract;
pub mod error_display;
pub mod event;
pub mod laws;
pub mod macro_args;
pub mod macro_laws;
pub mod near_expect;
pub mod operation_laws;
pub mod promise;
pub mod registry_laws;
pub mod relayer_error;
pub mod relayer_macro;
pub mod relayer_map;
pub mod syntax;
pub mod templates;
pub mod text;
pub mod tokens;
pub mod trusted_relayer;
