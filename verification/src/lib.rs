//! A verified model of a password-protected "trust circle" game over a
//! yield-bearing token: players create circles guarded by a hashed password,
//! join them, or betray them; a batch harvest round pools externally collected
//! yield per circle and distributes it, winner-take-all to the betrayer of a
//! betrayed circle, or in equal shares otherwise, while per-player and
//! per-circle earnings ledgers and a derived scoreboard are kept consistent.

pub mod errors;
pub mod harvest;
pub mod hashing;
pub mod laws;
pub mod queries;
pub mod records;
pub mod registry;
pub mod scoreboard;
pub mod state;
pub mod stats;

pub use errors::Error;
pub use harvest::{CircleRoundEvents, MemberYieldEvent};
pub use records::{
    Circle, CircleEarnings, CircleInfo, HarvestResult, PlayerEarnings, PlayerStats,
    ScoreboardEntry,
};
pub use state::Contract;
