//! The game contract: wagers held in escrow, turns, and the ways a game ends.

pub mod address;
pub mod call_laws;
pub mod contract;
pub mod ending;
pub mod escrow;
pub mod fees;
pub mod laws;
pub mod range_laws;
pub mod settings_laws;
pub mod state;
pub mod tournament;
pub mod tournament_laws;
