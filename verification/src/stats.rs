//! The scoreboard and earnings ledgers: lazily created per-player records,
//! bumped by one counter or one amount at a time.
//!
//! Each executable update is proved equal to a view-level transition, and each
//! transition is proved to preserve the state invariant.

use vstd::prelude::*;

use crate::records::{zero_earnings, zero_stats, PlayerEarnings, PlayerStats};
use crate::state::{cap_u128, lemma_push_preserves_no_duplicates, Contract, ContractView};

verus! {

broadcast use vstd::seq_lib::lemma_seq_contains_after_push;

/// Creates `wallet`'s zeroed statistics record and lists the wallet as a
/// player, if it was never touched before.
pub open spec fn ensure_player(s: ContractView, wallet: u64) -> ContractView {
    if s.stats.contains_key(wallet) {
        s
    } else {
        ContractView {
            stats: s.stats.insert(wallet, zero_stats(wallet)),
            players: s.players.push(wallet),
            ..s
        }
    }
}

/// Creates `wallet`'s zeroed earnings record (and its statistics record) if
/// missing.
pub open spec fn ensure_earnings(s: ContractView, wallet: u64) -> ContractView {
    let s1 = ensure_player(s, wallet);
    if s1.earnings.contains_key(wallet) {
        s1
    } else {
        ContractView { earnings: s1.earnings.insert(wallet, zero_earnings(wallet)), ..s1 }
    }
}

/// Counts one created circle for `wallet`.
pub open spec fn bump_created(s: ContractView, wallet: u64) -> ContractView {
    let s1 = ensure_player(s, wallet);
    let st = s1.stats[wallet];
    ContractView {
        stats: s1.stats.insert(
            wallet,
            PlayerStats { circles_created: st.circles_created.saturating_add(1), ..st },
        ),
        ..s1
    }
}

/// Counts one joined circle for `wallet`.
pub open spec fn bump_joined(s: ContractView, wallet: u64) -> ContractView {
    let s1 = ensure_player(s, wallet);
    let st = s1.stats[wallet];
    ContractView {
        stats: s1.stats.insert(
            wallet,
            PlayerStats { circles_joined: st.circles_joined.saturating_add(1), ..st },
        ),
        ..s1
    }
}

/// Counts one betrayal performed by `wallet`.
pub open spec fn bump_betrayed(s: ContractView, wallet: u64) -> ContractView {
    let s1 = ensure_player(s, wallet);
    let st = s1.stats[wallet];
    ContractView {
        stats: s1.stats.insert(
            wallet,
            PlayerStats { circles_betrayed: st.circles_betrayed.saturating_add(1), ..st },
        ),
        ..s1
    }
}

/// Counts one betrayal suffered by `wallet`'s circle.
pub open spec fn bump_was_betrayed(s: ContractView, wallet: u64) -> ContractView {
    let s1 = ensure_player(s, wallet);
    let st = s1.stats[wallet];
    ContractView {
        stats: s1.stats.insert(
            wallet,
            PlayerStats { times_betrayed: st.times_betrayed.saturating_add(1), ..st },
        ),
        ..s1
    }
}

/// Which earnings category a payment falls under.
#[derive(Clone, Copy, Debug, PartialEq, Eq, Structural)]
pub enum EarnKind {
    OwnCircle,
    JoinedCircle,
    Betrayal,
}

/// Credits `amount` to `wallet` under `kind`: the category sub-total, the
/// earnings total, and the wallet's statistics total all grow together,
/// saturating.
pub open spec fn bump_earnings(
    s: ContractView,
    wallet: u64,
    amount: u128,
    kind: EarnKind,
) -> ContractView {
    let s1 = ensure_earnings(s, wallet);
    let e = s1.earnings[wallet];
    let st = s1.stats[wallet];
    let e2 = match kind {
        EarnKind::OwnCircle => PlayerEarnings {
            kale_earned_from_own_circles: e.kale_earned_from_own_circles.saturating_add(amount),
            ..e
        },
        EarnKind::JoinedCircle => PlayerEarnings {
            kale_earned_from_join_circles: e.kale_earned_from_join_circles.saturating_add(amount),
            ..e
        },
        EarnKind::Betrayal => PlayerEarnings {
            kale_earned_from_betrayals: e.kale_earned_from_betrayals.saturating_add(amount),
            ..e
        },
    };
    ContractView {
        earnings: s1.earnings.insert(
            wallet,
            PlayerEarnings { total_kale_earned: e.total_kale_earned.saturating_add(amount), ..e2 },
        ),
        stats: s1.stats.insert(
            wallet,
            PlayerStats { total_kale_earned: st.total_kale_earned.saturating_add(amount), ..st },
        ),
        ..s1
    }
}

/// Two states with the same member and joined maps read the same membership.
pub proof fn lemma_membership_unchanged(s: ContractView, t: ContractView)
    requires
        t.members == s.members,
        t.joined == s.joined,
    ensures
        forall|id: u32| #[trigger] t.members_of(id) == s.members_of(id),
        forall|w: u64| #[trigger] t.joined_of(w) == s.joined_of(w),
{
}

/// Touching a player keeps the state invariant and changes no record that
/// already existed.
pub proof fn lemma_ensure_player_wf(s: ContractView, wallet: u64)
    requires
        s.wf(),
    ensures
        ensure_player(s, wallet).wf(),
        ensure_player(s, wallet).stats.contains_key(wallet),
        forall|w: u64| ensure_player(s, wallet).stats_of(w) == s.stats_of(w),
{
    let s1 = ensure_player(s, wallet);
    lemma_membership_unchanged(s, s1);
    if !s.stats.contains_key(wallet) {
        assert(!s.players.contains(wallet));
        lemma_push_preserves_no_duplicates(s.players, wallet);
        assert forall|w: u64| #[trigger] s1.stats.contains_key(w) implies s1.players.contains(
            w,
        ) by {
            if w != wallet {
                assert(s.stats.contains_key(w));
            }
        }
    }
}

/// Ensuring an earnings record keeps the state invariant.
pub proof fn lemma_ensure_earnings_wf(s: ContractView, wallet: u64)
    requires
        s.wf(),
    ensures
        ensure_earnings(s, wallet).wf(),
        ensure_earnings(s, wallet).stats.contains_key(wallet),
        ensure_earnings(s, wallet).earnings.contains_key(wallet),
        forall|w: u64| ensure_earnings(s, wallet).stats_of(w) == s.stats_of(w),
        forall|w: u64| ensure_earnings(s, wallet).earnings_of(w) == s.earnings_of(w),
{
    lemma_ensure_player_wf(s, wallet);
    lemma_membership_unchanged(s, ensure_earnings(s, wallet));
}

/// Bumping a participation counter keeps the state invariant.
pub proof fn lemma_bump_counters_wf(s: ContractView, wallet: u64)
    requires
        s.wf(),
    ensures
        bump_created(s, wallet).wf(),
        bump_joined(s, wallet).wf(),
        bump_betrayed(s, wallet).wf(),
        bump_was_betrayed(s, wallet).wf(),
{
    lemma_ensure_player_wf(s, wallet);
    lemma_membership_unchanged(s, bump_created(s, wallet));
    lemma_membership_unchanged(s, bump_joined(s, wallet));
    lemma_membership_unchanged(s, bump_betrayed(s, wallet));
    lemma_membership_unchanged(s, bump_was_betrayed(s, wallet));
}

/// Crediting earnings keeps the state invariant.
pub proof fn lemma_bump_earnings_wf(s: ContractView, wallet: u64, amount: u128, kind: EarnKind)
    requires
        s.wf(),
    ensures
        bump_earnings(s, wallet, amount, kind).wf(),
{
    lemma_ensure_earnings_wf(s, wallet);
    lemma_membership_unchanged(s, bump_earnings(s, wallet, amount, kind));
    let s1 = ensure_earnings(s, wallet);
    let e = s1.earnings[wallet];
    let s2 = bump_earnings(s, wallet, amount, kind);
    let e2 = s2.earnings[wallet];
    assert(e.total_kale_earned == cap_u128(
        e.kale_earned_from_own_circles + e.kale_earned_from_join_circles
            + e.kale_earned_from_betrayals,
    ));
    assert(e2.total_kale_earned == cap_u128(
        e2.kale_earned_from_own_circles + e2.kale_earned_from_join_circles
            + e2.kale_earned_from_betrayals,
    ));
}

impl Contract {
    /// Creates the zeroed statistics record of `player` on first touch and
    /// lists the player.
    pub(crate) fn ensure_player_exists(&mut self, player: u64)
        requires
            old(self)@.wf(),
        ensures
            final(self)@ == ensure_player(old(self)@, player),
            final(self)@.wf(),
    {
        proof {
            lemma_ensure_player_wf(old(self)@, player);
        }
        if self.get_stats(player).is_none() {
            self.put_stats(
                player,
                PlayerStats {
                    address: player,
                    circles_created: 0,
                    circles_joined: 0,
                    circles_betrayed: 0,
                    times_betrayed: 0,
                    total_kale_earned: 0,
                },
            );
            self.players.push(player);
            proof {
                assert(self@ =~~= ensure_player(old(self)@, player));
            }
        }
    }

    /// Creates the zeroed earnings record of `player` on first touch.
    pub(crate) fn ensure_player_earnings_exists(&mut self, player: u64)
        requires
            old(self)@.wf(),
        ensures
            final(self)@ == ensure_earnings(old(self)@, player),
            final(self)@.wf(),
    {
        proof {
            lemma_ensure_earnings_wf(old(self)@, player);
        }
        self.ensure_player_exists(player);
        if self.get_earnings(player).is_none() {
            self.put_earnings(
                player,
                PlayerEarnings {
                    address: player,
                    total_kale_earned: 0,
                    kale_earned_from_own_circles: 0,
                    kale_earned_from_join_circles: 0,
                    kale_earned_from_betrayals: 0,
                },
            );
        }
        proof {
            assert(self@ =~~= ensure_earnings(old(self)@, player));
        }
    }

    /// Counts one created circle for `player`.
    pub(crate) fn update_player_stats_created(&mut self, player: u64)
        requires
            old(self)@.wf(),
        ensures
            final(self)@ == bump_created(old(self)@, player),
            final(self)@.wf(),
    {
        proof {
            lemma_bump_counters_wf(old(self)@, player);
        }
        self.ensure_player_exists(player);
        let st = self.get_stats(player).unwrap();
        self.put_stats(
            player,
            PlayerStats { circles_created: st.circles_created.saturating_add(1), ..st },
        );
        proof {
            assert(self@ =~~= bump_created(old(self)@, player));
        }
    }

    /// Counts one joined circle for `player`.
    pub(crate) fn update_player_stats_joined(&mut self, player: u64)
        requires
            old(self)@.wf(),
        ensures
            final(self)@ == bump_joined(old(self)@, player),
            final(self)@.wf(),
    {
        proof {
            lemma_bump_counters_wf(old(self)@, player);
        }
        self.ensure_player_exists(player);
        let st = self.get_stats(player).unwrap();
        self.put_stats(
            player,
            PlayerStats { circles_joined: st.circles_joined.saturating_add(1), ..st },
        );
        proof {
            assert(self@ =~~= bump_joined(old(self)@, player));
        }
    }

    /// Counts one betrayal performed by `player`.
    pub(crate) fn update_player_stats_betrayed(&mut self, player: u64)
        requires
            old(self)@.wf(),
        ensures
            final(self)@ == bump_betrayed(old(self)@, player),
            final(self)@.wf(),
    {
        proof {
            lemma_bump_counters_wf(old(self)@, player);
        }
        self.ensure_player_exists(player);
        let st = self.get_stats(player).unwrap();
        self.put_stats(
            player,
            PlayerStats { circles_betrayed: st.circles_betrayed.saturating_add(1), ..st },
        );
        proof {
            assert(self@ =~~= bump_betrayed(old(self)@, player));
        }
    }

    /// Counts one betrayal suffered by `player`'s circle.
    pub(crate) fn update_player_stats_was_betrayed(&mut self, player: u64)
        requires
            old(self)@.wf(),
        ensures
            final(self)@ == bump_was_betrayed(old(self)@, player),
            final(self)@.wf(),
    {
        proof {
            lemma_bump_counters_wf(old(self)@, player);
        }
        self.ensure_player_exists(player);
        let st = self.get_stats(player).unwrap();
        self.put_stats(
            player,
            PlayerStats { times_betrayed: st.times_betrayed.saturating_add(1), ..st },
        );
        proof {
            assert(self@ =~~= bump_was_betrayed(old(self)@, player));
        }
    }

    /// Credits `amount` to `player` under `kind`.
    pub(crate) fn update_player_earnings(&mut self, player: u64, amount: u128, kind: EarnKind)
        requires
            old(self)@.wf(),
        ensures
            final(self)@ == bump_earnings(old(self)@, player, amount, kind),
            final(self)@.wf(),
    {
        proof {
            lemma_bump_earnings_wf(old(self)@, player, amount, kind);
        }
        self.ensure_player_earnings_exists(player);
        let e = self.get_earnings(player).unwrap();
        let e2 = match kind {
            EarnKind::OwnCircle => PlayerEarnings {
                kale_earned_from_own_circles: e.kale_earned_from_own_circles.saturating_add(
                    amount,
                ),
                ..e
            },
            EarnKind::JoinedCircle => PlayerEarnings {
                kale_earned_from_join_circles: e.kale_earned_from_join_circles.saturating_add(
                    amount,
                ),
                ..e
            },
            EarnKind::Betrayal => PlayerEarnings {
                kale_earned_from_betrayals: e.kale_earned_from_betrayals.saturating_add(amount),
                ..e
            },
        };
        self.put_earnings(
            player,
            PlayerEarnings { total_kale_earned: e.total_kale_earned.saturating_add(amount), ..e2 },
        );
        let st = self.get_stats(player).unwrap();
        self.put_stats(
            player,
            PlayerStats { total_kale_earned: st.total_kale_earned.saturating_add(amount), ..st },
        );
        proof {
            assert(self@ =~~= bump_earnings(old(self)@, player, amount, kind));
        }
    }
}

} // verus!
