//! Staked chess matches on Stellar: the listener that starts a match once its
//! stake is confirmed on-chain, and the escrow rules of the game contract.

pub mod channel;
pub mod event_listener;
pub mod game;
pub mod listener_call_laws;
pub mod listener_laws;
pub mod paging;
pub mod poll;
pub mod signal;
pub mod text;
pub mod text_laws;
pub mod topic;
