//! The persisted record types: circles, per-player statistics and earnings,
//! per-circle earnings, the harvest report, and the scoreboard projection.
//!
//! Wallets are modelled as plain 64-bit identifiers and token amounts as
//! unsigned 128-bit token units. Cumulative counters and totals saturate at
//! their type's maximum instead of overflowing.

use vstd::prelude::*;

verus! {

/// One circle: a password-protected group with a single creator.
///
/// `betrayed` is monotonic (once true it never reverts), `betrayer` is set
/// exactly when `betrayed` holds, and `member_count` counts the creator plus
/// the joined members, saturating.
pub struct Circle {
    pub name: String,
    pub password_hash: Vec<u8>,
    pub betrayed: bool,
    pub creator: u64,
    pub member_count: u32,
    pub betrayer: Option<u64>,
    pub total_kale_earned: u128,
}

/// The mathematical image of a [`Circle`].
#[verifier::ext_equal]
pub ghost struct CircleView {
    pub name: Seq<char>,
    pub password_hash: Seq<u8>,
    pub betrayed: bool,
    pub creator: u64,
    pub member_count: u32,
    pub betrayer: Option<u64>,
    pub total_kale_earned: u128,
}

impl View for Circle {
    type V = CircleView;

    open spec fn view(&self) -> CircleView {
        CircleView {
            name: self.name@,
            password_hash: self.password_hash@,
            betrayed: self.betrayed,
            creator: self.creator,
            member_count: self.member_count,
            betrayer: self.betrayer,
            total_kale_earned: self.total_kale_earned,
        }
    }
}

/// A circle as reported to readers, with its id attached.
pub struct CircleInfo {
    pub circle_id: u32,
    pub name: String,
    pub betrayed: bool,
    pub creator: u64,
    pub member_count: u32,
    pub total_kale_earned: u128,
}

/// The mathematical image of a [`CircleInfo`].
#[verifier::ext_equal]
pub ghost struct CircleInfoView {
    pub circle_id: u32,
    pub name: Seq<char>,
    pub betrayed: bool,
    pub creator: u64,
    pub member_count: u32,
    pub total_kale_earned: u128,
}

impl View for CircleInfo {
    type V = CircleInfoView;

    open spec fn view(&self) -> CircleInfoView {
        CircleInfoView {
            circle_id: self.circle_id,
            name: self.name@,
            betrayed: self.betrayed,
            creator: self.creator,
            member_count: self.member_count,
            total_kale_earned: self.total_kale_earned,
        }
    }
}

/// The aggregate report of one batch harvest round.
#[derive(Clone, Copy, Debug, PartialEq, Eq, Structural)]
pub struct HarvestResult {
    pub total_distributed: u128,
    pub successful_circles: u32,
    pub failed_harvests: u32,
}

/// Cumulative earnings of one player, split by how they were earned.
/// `total_kale_earned` is the saturating sum of the three categories.
#[derive(Clone, Copy, Debug, PartialEq, Eq, Structural)]
pub struct PlayerEarnings {
    pub address: u64,
    pub total_kale_earned: u128,
    pub kale_earned_from_own_circles: u128,
    pub kale_earned_from_join_circles: u128,
    pub kale_earned_from_betrayals: u128,
}

/// Cumulative earnings of one circle across harvest rounds.
/// `average_per_harvest` is the truncated mean over `total_harvests` rounds.
#[derive(Clone, Copy, Debug, PartialEq, Eq, Structural)]
pub struct CircleEarnings {
    pub circle_id: u32,
    pub total_earned: u128,
    pub total_harvests: u32,
    pub average_per_harvest: u128,
    pub last_harvest_amount: u128,
}

/// Participation counters of one player.
#[derive(Clone, Copy, Debug, PartialEq, Eq, Structural)]
pub struct PlayerStats {
    pub address: u64,
    pub circles_created: u32,
    pub circles_joined: u32,
    pub circles_betrayed: u32,
    pub times_betrayed: u32,
    pub total_kale_earned: u128,
}

/// One row of the derived scoreboard.
#[derive(Clone, Copy, Debug, PartialEq, Eq, Structural)]
pub struct ScoreboardEntry {
    pub address: u64,
    pub circles_created: u32,
    pub circles_joined: u32,
    pub circles_betrayed: u32,
    pub times_betrayed: u32,
    pub trust_score: i64,
    pub betrayal_ratio: u64,
    pub total_kale_earned: u128,
    pub kale_per_circle: u128,
}

/// The zeroed statistics record a player starts with.
pub open spec fn zero_stats(wallet: u64) -> PlayerStats {
    PlayerStats {
        address: wallet,
        circles_created: 0,
        circles_joined: 0,
        circles_betrayed: 0,
        times_betrayed: 0,
        total_kale_earned: 0,
    }
}

/// The zeroed earnings record a player starts with.
pub open spec fn zero_earnings(wallet: u64) -> PlayerEarnings {
    PlayerEarnings {
        address: wallet,
        total_kale_earned: 0,
        kale_earned_from_own_circles: 0,
        kale_earned_from_join_circles: 0,
        kale_earned_from_betrayals: 0,
    }
}

/// The zeroed earnings record a circle starts with.
pub open spec fn zero_circle_earnings(circle_id: u32) -> CircleEarnings {
    CircleEarnings {
        circle_id,
        total_earned: 0,
        total_harvests: 0,
        average_per_harvest: 0,
        last_harvest_amount: 0,
    }
}

} // verus!
