//! Read-only accessors over the stored state: circle info, membership
//! queries, earnings lookups, and the full circle listing.

use vstd::prelude::*;
use vstd::string::StringExecFns;

use crate::records::{CircleEarnings, CircleInfo, CircleInfoView, PlayerEarnings, PlayerStats};
use crate::state::{vec_contains_u32, vec_copy_u32, vec_copy_u64, Contract, ContractView};

verus! {

/// The circle listing a reader sees: every listed id whose record is present,
/// in creation order, with its id attached.
pub open spec fn circle_infos_of(s: ContractView, ids: Seq<u32>) -> Seq<CircleInfoView>
    decreases ids.len(),
{
    if ids.len() == 0 {
        Seq::empty()
    } else {
        let rest = circle_infos_of(s, ids.drop_last());
        match s.circle(ids.last()) {
            Option::Some(c) => rest.push(
                CircleInfoView {
                    circle_id: ids.last(),
                    name: c.name,
                    betrayed: c.betrayed,
                    creator: c.creator,
                    member_count: c.member_count,
                    total_kale_earned: c.total_kale_earned,
                },
            ),
            Option::None => rest,
        }
    }
}

/// The earnings records of every listed circle that has one, in creation
/// order.
pub open spec fn circle_earnings_list(s: ContractView, ids: Seq<u32>) -> Seq<CircleEarnings>
    decreases ids.len(),
{
    if ids.len() == 0 {
        Seq::empty()
    } else {
        let rest = circle_earnings_list(s, ids.drop_last());
        if s.circle_earnings.contains_key(ids.last()) {
            rest.push(s.circle_earnings[ids.last()])
        } else {
            rest
        }
    }
}

impl Contract {
    /// A circle's name, trust state, creator, member count and cumulative
    /// earnings, if it exists.
    pub fn get_circle_info(&self, circle_id: u32) -> (r: Option<(String, bool, u64, u32, u128)>)
        ensures
            match self@.circle(circle_id) {
                Some(c) => r matches Some(t) && t.0@ == c.name && t.1 == c.betrayed && t.2
                    == c.creator && t.3 == c.member_count && t.4 == c.total_kale_earned,
                None => r is None,
            },
    {
        match self.get_circle(circle_id) {
            Some(c) => Some(
                (c.name.clone(), c.betrayed, c.creator, c.member_count, c.total_kale_earned),
            ),
            None => None,
        }
    }

    /// The circle `wallet` created, with its id, if both the created-circle
    /// entry and the circle record exist.
    pub fn get_owner_circle(&self, wallet: u64) -> (r: Option<(String, bool, u64, u32, u32, u128)>)
        ensures
            ({
                if !self@.created.contains_key(wallet) {
                    r is None
                } else {
                    match self@.circle(self@.created[wallet]) {
                        Some(c) => r matches Some(t) && t.0@ == c.name && t.1 == c.betrayed && t.2
                            == c.creator && t.3 == c.member_count && t.4 == self@.created[wallet]
                            && t.5 == c.total_kale_earned,
                        None => r is None,
                    }
                }
            }),
    {
        let id = match self.get_created(wallet) {
            Some(id) => id,
            None => {
                return None;
            },
        };
        match self.get_circle(id) {
            Some(c) => Some(
                (c.name.clone(), c.betrayed, c.creator, c.member_count, id, c.total_kale_earned),
            ),
            None => None,
        }
    }

    /// The ids of every circle `wallet` joined, in join order.
    pub fn get_wallet_circles(&self, wallet: u64) -> (r: Vec<u32>)
        ensures
            r@ == self@.joined_of(wallet),
    {
        match self.get_joined(wallet) {
            Some(v) => vec_copy_u32(v),
            None => Vec::new(),
        }
    }

    /// The members of a circle, in join order (the creator is not listed).
    pub fn get_circle_members(&self, circle_id: u32) -> (r: Vec<u64>)
        ensures
            r@ == self@.members_of(circle_id),
    {
        match self.get_members(circle_id) {
            Some(v) => vec_copy_u64(v),
            None => Vec::new(),
        }
    }

    /// Whether `wallet` has joined any circle.
    pub fn is_in_circle(&self, wallet: u64) -> (r: bool)
        ensures
            r == (self@.joined_of(wallet).len() != 0),
    {
        match self.get_joined(wallet) {
            Some(v) => v.len() != 0,
            None => false,
        }
    }

    /// Whether `wallet` has joined the circle `circle_id`.
    pub fn is_in_specific_circle(&self, wallet: u64, circle_id: u32) -> (r: bool)
        ensures
            r == self@.joined_of(wallet).contains(circle_id),
    {
        match self.get_joined(wallet) {
            Some(v) => vec_contains_u32(v, circle_id),
            None => false,
        }
    }

    /// The participation counters of `player`, if the player was ever
    /// touched.
    pub fn get_player_stats(&self, player: u64) -> (r: Option<PlayerStats>)
        ensures
            r == if self@.stats.contains_key(player) {
                Some(self@.stats[player])
            } else {
                (None::<PlayerStats>)
            },
    {
        self.get_stats(player)
    }

    /// The earnings record of `player`, if the player ever earned.
    pub fn get_player_earnings(&self, player: u64) -> (r: Option<PlayerEarnings>)
        ensures
            r == if self@.earnings.contains_key(player) {
                Some(self@.earnings[player])
            } else {
                (None::<PlayerEarnings>)
            },
    {
        self.get_earnings(player)
    }

    /// The earnings record of circle `circle_id`, if one exists.
    pub fn get_circle_earnings(&self, circle_id: u32) -> (r: Option<CircleEarnings>)
        ensures
            r == if self@.circle_earnings.contains_key(circle_id) {
                Some(self@.circle_earnings[circle_id])
            } else {
                (None::<CircleEarnings>)
            },
    {
        self.get_circle_earnings_record(circle_id)
    }

    /// The total tokens distributed across all circles, all rounds.
    pub fn get_total_kale_earned(&self) -> (r: u128)
        ensures
            r == self@.total_kale_earned,
    {
        self.total_kale_earned
    }

    /// Every circle that exists, with its id, in creation order.
    pub fn get_all_circles(&self) -> (r: Vec<CircleInfo>)
        ensures
            r@.len() == circle_infos_of(self@, self@.all_ids).len(),
            forall|i: int|
                0 <= i < r@.len() ==> (#[trigger] r@[i])@ == circle_infos_of(
                    self@,
                    self@.all_ids,
                )[i],
    {
        let mut r: Vec<CircleInfo> = Vec::new();
        let mut i: usize = 0;
        let n = self.all_ids.len();
        while i < n
            invariant
                0 <= i <= n,
                n == self@.all_ids.len(),
                r@.len() == circle_infos_of(self@, self@.all_ids.take(i as int)).len(),
                forall|j: int|
                    0 <= j < r@.len() ==> (#[trigger] r@[j])@ == circle_infos_of(
                        self@,
                        self@.all_ids.take(i as int),
                    )[j],
            decreases n - i,
        {
            proof {
                assert(self@.all_ids.take(i + 1 as int).drop_last() =~= self@.all_ids.take(
                    i as int,
                ));
            }
            let id = self.all_ids[i];
            match self.get_circle(id) {
                Some(c) => {
                    r.push(
                        CircleInfo {
                            circle_id: id,
                            name: c.name.clone(),
                            betrayed: c.betrayed,
                            creator: c.creator,
                            member_count: c.member_count,
                            total_kale_earned: c.total_kale_earned,
                        },
                    );
                },
                None => {},
            }
            i += 1;
        }
        proof {
            assert(self@.all_ids.take(n as int) =~= self@.all_ids);
        }
        r
    }

    /// The earnings records of every circle that has one, in creation order.
    /// No ranking is applied: ordering by earnings is left to the caller, and
    /// the `limit` is not enforced here.
    #[allow(unused_variables)]
    pub fn get_top_earning_circles(&self, limit: u32) -> (r: Vec<CircleEarnings>)
        ensures
            r@ == circle_earnings_list(self@, self@.all_ids),
    {
        let mut r: Vec<CircleEarnings> = Vec::new();
        let mut i: usize = 0;
        let n = self.all_ids.len();
        while i < n
            invariant
                0 <= i <= n,
                n == self@.all_ids.len(),
                r@ == circle_earnings_list(self@, self@.all_ids.take(i as int)),
            decreases n - i,
        {
            proof {
                assert(self@.all_ids.take(i + 1 as int).drop_last() =~= self@.all_ids.take(
                    i as int,
                ));
            }
            let id = self.all_ids[i];
            match self.get_circle_earnings_record(id) {
                Some(e) => {
                    r.push(e);
                },
                None => {},
            }
            i += 1;
        }
        proof {
            assert(self@.all_ids.take(n as int) =~= self@.all_ids);
        }
        r
    }

    /// A friendly greeting, kept for compatibility with early callers.
    pub fn hello(to: String) -> (r: Vec<String>)
        ensures
            r@.len() == 2,
            r@[0]@ == "Hello"@,
            r@[1] == to,
    {
        let mut v: Vec<String> = Vec::new();
        v.push(String::from_str("Hello"));
        v.push(to);
        v
    }
}

} // verus!
