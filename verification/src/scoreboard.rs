//! The derived scoreboard: an on-demand projection over every known player.
//! No persistent sorted index is kept; ranking is left to the caller.

use vstd::prelude::*;

use crate::records::{PlayerStats, ScoreboardEntry};
use crate::state::{Contract, ContractView};

verus! {

/// The scoreboard row derived from one player's counters:
/// `trust_score = circles_joined - circles_betrayed` (signed, can be
/// negative); `betrayal_ratio = circles_betrayed * 100 / circles_joined`
/// truncated, 0 when no circle was joined; `kale_per_circle =
/// total_kale_earned / circles_joined` truncated, 0 when no circle was
/// joined.
pub open spec fn entry_of(st: PlayerStats) -> ScoreboardEntry {
    ScoreboardEntry {
        address: st.address,
        circles_created: st.circles_created,
        circles_joined: st.circles_joined,
        circles_betrayed: st.circles_betrayed,
        times_betrayed: st.times_betrayed,
        trust_score: (st.circles_joined - st.circles_betrayed) as i64,
        betrayal_ratio: if st.circles_joined == 0 {
            0u64
        } else {
            ((st.circles_betrayed as int * 100) / (st.circles_joined as int)) as u64
        },
        total_kale_earned: st.total_kale_earned,
        kale_per_circle: if st.circles_joined == 0 {
            0u128
        } else {
            ((st.total_kale_earned as int) / (st.circles_joined as int)) as u128
        },
    }
}

/// The participation totals over a list of players: how many have a
/// statistics record, and the sums (saturating) of their created, joined and
/// betrayed counters and of their earnings.
pub open spec fn totals_of(s: ContractView, players: Seq<u64>) -> (u64, u64, u64, u64, u128)
    decreases players.len(),
{
    if players.len() == 0 {
        (0u64, 0u64, 0u64, 0u64, 0u128)
    } else {
        let rest = totals_of(s, players.drop_last());
        let w = players.last();
        if s.stats.contains_key(w) {
            let st = s.stats[w];
            (
                rest.0.saturating_add(1),
                rest.1.saturating_add(st.circles_created as u64),
                rest.2.saturating_add(st.circles_joined as u64),
                rest.3.saturating_add(st.circles_betrayed as u64),
                rest.4.saturating_add(st.total_kale_earned),
            )
        } else {
            rest
        }
    }
}

impl Contract {
    /// One scoreboard row per known player, in first-touch order, each
    /// derived from that player's counters by [`entry_of`].
    pub fn get_scoreboard(&self) -> (r: Vec<ScoreboardEntry>)
        requires
            self@.wf(),
        ensures
            r@.len() == self@.players.len(),
            forall|i: int|
                0 <= i < r@.len() ==> r@[i] == entry_of(self@.stats[self@.players[i]]),
    {
        let mut r: Vec<ScoreboardEntry> = Vec::new();
        let mut i: usize = 0;
        let n = self.players.len();
        while i < n
            invariant
                self@.wf(),
                0 <= i <= n,
                n == self@.players.len(),
                r@.len() == i,
                forall|j: int|
                    0 <= j < r@.len() ==> r@[j] == entry_of(self@.stats[self@.players[j]]),
            decreases n - i,
        {
            let w = self.players[i];
            proof {
                assert(self@.players.contains(w));
            }
            match self.get_stats(w) {
                Some(st) => {
                    let trust_score: i64 = st.circles_joined as i64 - st.circles_betrayed as i64;
                    let betrayal_ratio: u64 = if st.circles_joined > 0 {
                        (st.circles_betrayed as u64 * 100) / (st.circles_joined as u64)
                    } else {
                        0
                    };
                    let kale_per_circle: u128 = if st.circles_joined > 0 {
                        st.total_kale_earned / (st.circles_joined as u128)
                    } else {
                        0
                    };
                    r.push(
                        ScoreboardEntry {
                            address: st.address,
                            circles_created: st.circles_created,
                            circles_joined: st.circles_joined,
                            circles_betrayed: st.circles_betrayed,
                            times_betrayed: st.times_betrayed,
                            trust_score,
                            betrayal_ratio,
                            total_kale_earned: st.total_kale_earned,
                            kale_per_circle,
                        },
                    );
                },
                None => {
                    proof {
                        assert(false);
                    }
                },
            }
            i += 1;
        }
        r
    }

    /// The total participation statistics: players counted, circles created,
    /// circles joined, betrayals, and tokens earned, summed (saturating) over
    /// every known player.
    pub fn get_total_stats(&self) -> (r: (u64, u64, u64, u64, u128))
        ensures
            r == totals_of(self@, self@.players),
    {
        let mut total_players: u64 = 0;
        let mut total_created: u64 = 0;
        let mut total_joined: u64 = 0;
        let mut total_betrayals: u64 = 0;
        let mut total_kale: u128 = 0;
        let mut i: usize = 0;
        let n = self.players.len();
        while i < n
            invariant
                0 <= i <= n,
                n == self@.players.len(),
                (total_players, total_created, total_joined, total_betrayals, total_kale)
                    == totals_of(self@, self@.players.take(i as int)),
            decreases n - i,
        {
            proof {
                assert(self@.players.take(i + 1 as int).drop_last() =~= self@.players.take(
                    i as int,
                ));
            }
            let w = self.players[i];
            match self.get_stats(w) {
                Some(st) => {
                    total_players = total_players.saturating_add(1);
                    total_created = total_created.saturating_add(st.circles_created as u64);
                    total_joined = total_joined.saturating_add(st.circles_joined as u64);
                    total_betrayals = total_betrayals.saturating_add(st.circles_betrayed as u64);
                    total_kale = total_kale.saturating_add(st.total_kale_earned);
                },
                None => {},
            }
            i += 1;
        }
        proof {
            assert(self@.players.take(n as int) =~= self@.players);
        }
        (total_players, total_created, total_joined, total_betrayals, total_kale)
    }
}

} // verus!
