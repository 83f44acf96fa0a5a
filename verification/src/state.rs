//! The contract state: every persisted record, addressed by typed keys, held
//! in one store handle that is passed explicitly to every operation.
//!
//! `Contract` is the executable store; `ContractView` is its mathematical
//! image, over which all contracts and laws are stated. `ContractView::wf`
//! is the cross-record invariant that every operation preserves.

use std::collections::HashMap;
use vstd::prelude::*;

use crate::records::{Circle, CircleEarnings, CircleView, PlayerEarnings, PlayerStats};

verus! {

broadcast use vstd::std_specs::hash::group_hash_axioms;

/// Clamps a mathematical integer into the `u32` range from above.
pub open spec fn cap_u32(n: int) -> u32 {
    if n > u32::MAX {
        u32::MAX
    } else {
        n as u32
    }
}

/// Clamps a mathematical integer into the `u128` range from above.
pub open spec fn cap_u128(n: int) -> u128 {
    if n > u128::MAX {
        u128::MAX
    } else {
        n as u128
    }
}

/// Pushing a fresh element onto a duplicate-free sequence keeps it
/// duplicate-free.
pub proof fn lemma_push_preserves_no_duplicates<A>(s: Seq<A>, v: A)
    requires
        s.no_duplicates(),
        !s.contains(v),
    ensures
        s.push(v).no_duplicates(),
{
    assert forall|i: int, j: int|
        0 <= i < s.push(v).len() && 0 <= j < s.push(v).len() && i != j implies s.push(v)[i]
        != s.push(v)[j] by {
        if i < s.len() && j < s.len() {
            assert(s.push(v)[i] == s[i] && s.push(v)[j] == s[j]);
        } else if j == s.len() {
            assert(s.push(v)[j] == v);
            if s.push(v)[i] == v {
                assert(s[i] == v);
                assert(s.contains(v));
            }
        } else {
            assert(s.push(v)[i] == v);
            if s.push(v)[j] == v {
                assert(s[j] == v);
                assert(s.contains(v));
            }
        }
    }
}

/// Whether `v` holds `x`.
pub(crate) fn vec_contains_u32(v: &Vec<u32>, x: u32) -> (r: bool)
    ensures
        r == v@.contains(x),
{
    let mut i: usize = 0;
    while i < v.len()
        invariant
            0 <= i <= v@.len(),
            forall|j: int| 0 <= j < i ==> v@[j] != x,
        decreases v@.len() - i,
    {
        if v[i] == x {
            return true;
        }
        i += 1;
    }
    false
}

/// Whether `v` holds `x`.
pub(crate) fn vec_contains_u64(v: &Vec<u64>, x: u64) -> (r: bool)
    ensures
        r == v@.contains(x),
{
    let mut i: usize = 0;
    while i < v.len()
        invariant
            0 <= i <= v@.len(),
            forall|j: int| 0 <= j < i ==> v@[j] != x,
        decreases v@.len() - i,
    {
        if v[i] == x {
            return true;
        }
        i += 1;
    }
    false
}

/// Copies a list of circle ids.
pub(crate) fn vec_copy_u32(v: &Vec<u32>) -> (r: Vec<u32>)
    ensures
        r@ == v@,
{
    let mut r: Vec<u32> = Vec::new();
    let mut i: usize = 0;
    while i < v.len()
        invariant
            0 <= i <= v@.len(),
            r@ == v@.take(i as int),
        decreases v@.len() - i,
    {
        r.push(v[i]);
        proof {
            assert(v@.take(i + 1 as int) =~= v@.take(i as int).push(v@[i as int]));
        }
        i += 1;
    }
    proof {
        assert(v@.take(v@.len() as int) =~= v@);
    }
    r
}

/// Copies a list of wallets.
pub(crate) fn vec_copy_u64(v: &Vec<u64>) -> (r: Vec<u64>)
    ensures
        r@ == v@,
{
    let mut r: Vec<u64> = Vec::new();
    let mut i: usize = 0;
    while i < v.len()
        invariant
            0 <= i <= v@.len(),
            r@ == v@.take(i as int),
        decreases v@.len() - i,
    {
        r.push(v[i]);
        proof {
            assert(v@.take(i + 1 as int) =~= v@.take(i as int).push(v@[i as int]));
        }
        i += 1;
    }
    proof {
        assert(v@.take(v@.len() as int) =~= v@);
    }
    r
}

/// The whole persistent state of the game.
pub struct Contract {
    /// Circle id -> circle record.
    pub circles: HashMap<u64, Circle>,
    /// Creator wallet -> the id of the one circle it created.
    pub created: HashMap<u64, u32>,
    /// Wallet -> ids of the circles it joined, in join order.
    pub joined: HashMap<u64, Vec<u32>>,
    /// Circle id -> member wallets, in join order (the creator is not listed).
    pub members: HashMap<u64, Vec<u64>>,
    /// Every circle id ever allocated, in creation order.
    pub all_ids: Vec<u32>,
    /// Every wallet that ever participated, in first-touch order.
    pub players: Vec<u64>,
    /// Wallet -> participation counters.
    pub stats: HashMap<u64, PlayerStats>,
    /// Wallet -> cumulative earnings.
    pub earnings: HashMap<u64, PlayerEarnings>,
    /// Circle id -> cumulative harvest earnings.
    pub circle_earnings: HashMap<u64, CircleEarnings>,
    /// The next circle id to allocate; strictly increasing from 1.
    pub next_circle_id: u32,
    /// Total tokens distributed across all circles, all rounds.
    pub total_kale_earned: u128,
}

/// The mathematical image of a [`Contract`].
#[verifier::ext_equal]
pub ghost struct ContractView {
    pub circles: Map<u32, CircleView>,
    pub created: Map<u64, u32>,
    pub joined: Map<u64, Seq<u32>>,
    pub members: Map<u32, Seq<u64>>,
    pub all_ids: Seq<u32>,
    pub players: Seq<u64>,
    pub stats: Map<u64, PlayerStats>,
    pub earnings: Map<u64, PlayerEarnings>,
    pub circle_earnings: Map<u32, CircleEarnings>,
    pub next_circle_id: u32,
    pub total_kale_earned: u128,
}

impl View for Contract {
    type V = ContractView;

    open spec fn view(&self) -> ContractView {
        ContractView {
            circles: Map::new(
                |id: u32| self.circles@.contains_key(id as u64),
                |id: u32| self.circles@[id as u64]@,
            ),
            created: self.created@,
            joined: Map::new(
                |w: u64| self.joined@.contains_key(w),
                |w: u64| self.joined@[w]@,
            ),
            members: Map::new(
                |id: u32| self.members@.contains_key(id as u64),
                |id: u32| self.members@[id as u64]@,
            ),
            all_ids: self.all_ids@,
            players: self.players@,
            stats: self.stats@,
            earnings: self.earnings@,
            circle_earnings: Map::new(
                |id: u32| self.circle_earnings@.contains_key(id as u64),
                |id: u32| self.circle_earnings@[id as u64],
            ),
            next_circle_id: self.next_circle_id,
            total_kale_earned: self.total_kale_earned,
        }
    }
}

impl ContractView {
    /// The circle stored under `id`, if any.
    pub open spec fn circle(self, id: u32) -> Option<CircleView> {
        if self.circles.contains_key(id) {
            Some(self.circles[id])
        } else {
            None
        }
    }

    /// The member list of circle `id`; empty when none was stored.
    pub open spec fn members_of(self, id: u32) -> Seq<u64> {
        if self.members.contains_key(id) {
            self.members[id]
        } else {
            Seq::empty()
        }
    }

    /// The circles `wallet` joined; empty when none was stored.
    pub open spec fn joined_of(self, wallet: u64) -> Seq<u32> {
        if self.joined.contains_key(wallet) {
            self.joined[wallet]
        } else {
            Seq::empty()
        }
    }

    /// The participation counters of `wallet`; zeroed when never touched.
    pub open spec fn stats_of(self, wallet: u64) -> PlayerStats {
        if self.stats.contains_key(wallet) {
            self.stats[wallet]
        } else {
            crate::records::zero_stats(wallet)
        }
    }

    /// The earnings record of `wallet`; zeroed when never touched.
    pub open spec fn earnings_of(self, wallet: u64) -> PlayerEarnings {
        if self.earnings.contains_key(wallet) {
            self.earnings[wallet]
        } else {
            crate::records::zero_earnings(wallet)
        }
    }

    /// The earnings record of circle `id`; zeroed when never touched.
    pub open spec fn circle_earnings_of(self, id: u32) -> CircleEarnings {
        if self.circle_earnings.contains_key(id) {
            self.circle_earnings[id]
        } else {
            crate::records::zero_circle_earnings(id)
        }
    }

    /// Whether `wallet` is a joined member of circle `id`.
    pub open spec fn is_member(self, wallet: u64, id: u32) -> bool {
        self.members_of(id).contains(wallet)
    }

    /// The empty state a fresh contract starts in.
    pub open spec fn init() -> ContractView {
        ContractView {
            circles: Map::empty(),
            created: Map::empty(),
            joined: Map::empty(),
            members: Map::empty(),
            all_ids: Seq::empty(),
            players: Seq::empty(),
            stats: Map::empty(),
            earnings: Map::empty(),
            circle_earnings: Map::empty(),
            next_circle_id: 1,
            total_kale_earned: 0,
        }
    }

    /// The cross-record invariant:
    /// - circle ids come from the strictly increasing allocator and each
    ///   appears at most once in the id list;
    /// - member lists and joined lists are duplicate-free and agree on
    ///   membership, and a creator is never a member of its own circle;
    /// - a circle's member count is one (the creator) plus its member list
    ///   length, saturating;
    /// - a betrayer is recorded exactly on betrayed circles;
    /// - each wallet created at most one circle: every stored circle is the
    ///   one its creator's created-circle entry names;
    /// - the player list and the statistics records exist together and are
    ///   duplicate-free;
    /// - a player's earnings total is the saturating sum of its three
    ///   categories;
    /// - a circle's average earnings per harvest is the truncated mean.
    pub open spec fn wf(self) -> bool {
        &&& self.next_circle_id >= 1
        &&& forall|id: u32| #[trigger]
            self.circles.contains_key(id) ==> 1 <= id < self.next_circle_id
        &&& self.all_ids.no_duplicates()
        &&& forall|i: int|
            0 <= i < self.all_ids.len() ==> 1 <= #[trigger] self.all_ids[i]
                < self.next_circle_id
        &&& forall|id: u32| #[trigger]
            self.members.contains_key(id) ==> 1 <= id < self.next_circle_id
        &&& forall|id: u32| (#[trigger] self.members_of(id)).no_duplicates()
        &&& forall|w: u64| (#[trigger] self.joined_of(w)).no_duplicates()
        &&& forall|w: u64, id: u32| #![trigger self.joined_of(w).contains(id)]
            #![trigger self.members_of(id).contains(w)]
            self.joined_of(w).contains(id) <==> self.members_of(id).contains(w)
        &&& forall|id: u32| #[trigger]
            self.circles.contains_key(id) ==> {
                let c = self.circles[id];
                &&& c.member_count == cap_u32(1 + self.members_of(id).len() as int)
                &&& (c.betrayer is Some <==> c.betrayed)
                &&& !self.members_of(id).contains(c.creator)
                &&& self.created.contains_key(c.creator)
                &&& self.created[c.creator] == id
                &&& c.password_hash.len() == 32
            }
        &&& self.players.no_duplicates()
        &&& forall|w: u64| #![trigger self.stats.contains_key(w)]
            #![trigger self.players.contains(w)]
            self.stats.contains_key(w) <==> self.players.contains(w)
        &&& forall|w: u64| #[trigger] self.stats.contains_key(w) ==> self.stats[w].address == w
        &&& forall|w: u64| #[trigger]
            self.earnings.contains_key(w) ==> {
                let e = self.earnings[w];
                &&& e.address == w
                &&& e.total_kale_earned == cap_u128(
                    e.kale_earned_from_own_circles + e.kale_earned_from_join_circles
                        + e.kale_earned_from_betrayals,
                )
            }
        &&& forall|id: u32| #[trigger]
            self.circle_earnings.contains_key(id) ==> {
                let ce = self.circle_earnings[id];
                &&& ce.circle_id == id
                &&& (ce.total_harvests > 0 ==> ce.average_per_harvest == ce.total_earned / (
                ce.total_harvests as u128))
                &&& (ce.total_harvests == 0 ==> ce.average_per_harvest == 0)
            }
    }
}

impl Contract {
    /// A fresh store with no circles and no players, the id allocator at 1.
    pub fn new() -> (r: Contract)
        ensures
            r@ == ContractView::init(),
            r@.wf(),
    {
        let c = Contract {
            circles: HashMap::new(),
            created: HashMap::new(),
            joined: HashMap::new(),
            members: HashMap::new(),
            all_ids: Vec::new(),
            players: Vec::new(),
            stats: HashMap::new(),
            earnings: HashMap::new(),
            circle_earnings: HashMap::new(),
            next_circle_id: 1,
            total_kale_earned: 0,
        };
        proof {
            assert(c@ =~~= ContractView::init());
        }
        c
    }

    /// The circle stored under `circle_id`, if any.
    pub fn get_circle(&self, circle_id: u32) -> (r: Option<&Circle>)
        ensures
            match r {
                Some(c) => self@.circle(circle_id) == Some(c@),
                None => self@.circle(circle_id) is None,
            },
    {
        self.circles.get(&(circle_id as u64))
    }

    /// Removes and returns the circle stored under `circle_id`.
    pub(crate) fn take_circle(&mut self, circle_id: u32) -> (r: Option<Circle>)
        ensures
            final(self)@ == (ContractView {
                circles: old(self)@.circles.remove(circle_id),
                ..old(self)@
            }),
            match r {
                Some(c) => old(self)@.circle(circle_id) == Some(c@),
                None => old(self)@.circle(circle_id) is None,
            },
    {
        let r = self.circles.remove(&(circle_id as u64));
        proof {
            assert(self@ =~~= ContractView {
                circles: old(self)@.circles.remove(circle_id),
                ..old(self)@
            });
        }
        r
    }

    /// Stores `c` under `circle_id`, replacing any previous record.
    pub(crate) fn put_circle(&mut self, circle_id: u32, c: Circle)
        ensures
            final(self)@ == (ContractView {
                circles: old(self)@.circles.insert(circle_id, c@),
                ..old(self)@
            }),
    {
        let ghost cv = c@;
        self.circles.insert(circle_id as u64, c);
        proof {
            assert(self@ =~~= ContractView {
                circles: old(self)@.circles.insert(circle_id, cv),
                ..old(self)@
            });
        }
    }

    /// The member list stored for `circle_id`, if any.
    pub(crate) fn get_members(&self, circle_id: u32) -> (r: Option<&Vec<u64>>)
        ensures
            match r {
                Some(v) => self@.members.contains_key(circle_id) && v@ == self@.members[circle_id],
                None => !self@.members.contains_key(circle_id),
            },
    {
        self.members.get(&(circle_id as u64))
    }

    /// Removes and returns the member list of `circle_id`; an absent record
    /// reads as the empty list.
    pub(crate) fn take_members(&mut self, circle_id: u32) -> (r: Vec<u64>)
        ensures
            final(self)@ == (ContractView {
                members: old(self)@.members.remove(circle_id),
                ..old(self)@
            }),
            r@ == old(self)@.members_of(circle_id),
    {
        let r = match self.members.remove(&(circle_id as u64)) {
            Some(v) => v,
            None => Vec::new(),
        };
        proof {
            assert(self@ =~~= ContractView {
                members: old(self)@.members.remove(circle_id),
                ..old(self)@
            });
        }
        r
    }

    /// Stores `v` as the member list of `circle_id`.
    pub(crate) fn put_members(&mut self, circle_id: u32, v: Vec<u64>)
        ensures
            final(self)@ == (ContractView {
                members: old(self)@.members.insert(circle_id, v@),
                ..old(self)@
            }),
    {
        let ghost vv = v@;
        self.members.insert(circle_id as u64, v);
        proof {
            assert(self@ =~~= ContractView {
                members: old(self)@.members.insert(circle_id, vv),
                ..old(self)@
            });
        }
    }

    /// The joined-circle list stored for `wallet`, if any.
    pub(crate) fn get_joined(&self, wallet: u64) -> (r: Option<&Vec<u32>>)
        ensures
            match r {
                Some(v) => self@.joined.contains_key(wallet) && v@ == self@.joined[wallet],
                None => !self@.joined.contains_key(wallet),
            },
    {
        self.joined.get(&wallet)
    }

    /// Removes and returns the joined-circle list of `wallet`; an absent
    /// record reads as the empty list.
    pub(crate) fn take_joined(&mut self, wallet: u64) -> (r: Vec<u32>)
        ensures
            final(self)@ == (ContractView { joined: old(self)@.joined.remove(wallet), ..old(self)@ }),
            r@ == old(self)@.joined_of(wallet),
    {
        let r = match self.joined.remove(&wallet) {
            Some(v) => v,
            None => Vec::new(),
        };
        proof {
            assert(self@ =~~= ContractView {
                joined: old(self)@.joined.remove(wallet),
                ..old(self)@
            });
        }
        r
    }

    /// Stores `v` as the joined-circle list of `wallet`.
    pub(crate) fn put_joined(&mut self, wallet: u64, v: Vec<u32>)
        ensures
            final(self)@ == (ContractView {
                joined: old(self)@.joined.insert(wallet, v@),
                ..old(self)@
            }),
    {
        let ghost vv = v@;
        self.joined.insert(wallet, v);
        proof {
            assert(self@ =~~= ContractView {
                joined: old(self)@.joined.insert(wallet, vv),
                ..old(self)@
            });
        }
    }

    /// The id of the circle `wallet` created, if any.
    pub(crate) fn get_created(&self, wallet: u64) -> (r: Option<u32>)
        ensures
            r == if self@.created.contains_key(wallet) {
                Some(self@.created[wallet])
            } else {
                (None::<u32>)
            },
    {
        match self.created.get(&wallet) {
            Some(id) => Some(*id),
            None => None,
        }
    }

    /// Records `circle_id` as the circle `wallet` created.
    pub(crate) fn put_created(&mut self, wallet: u64, circle_id: u32)
        ensures
            final(self)@ == (ContractView {
                created: old(self)@.created.insert(wallet, circle_id),
                ..old(self)@
            }),
    {
        self.created.insert(wallet, circle_id);
        proof {
            assert(self@ =~~= ContractView {
                created: old(self)@.created.insert(wallet, circle_id),
                ..old(self)@
            });
        }
    }

    /// The statistics record of `wallet`, if one was created.
    pub(crate) fn get_stats(&self, wallet: u64) -> (r: Option<PlayerStats>)
        ensures
            r == if self@.stats.contains_key(wallet) {
                Some(self@.stats[wallet])
            } else {
                (None::<PlayerStats>)
            },
    {
        match self.stats.get(&wallet) {
            Some(s) => Some(*s),
            None => None,
        }
    }

    /// Stores `s` as the statistics record of `wallet`.
    pub(crate) fn put_stats(&mut self, wallet: u64, s: PlayerStats)
        ensures
            final(self)@ == (ContractView { stats: old(self)@.stats.insert(wallet, s), ..old(self)@ }),
    {
        self.stats.insert(wallet, s);
        proof {
            assert(self@ =~~= ContractView {
                stats: old(self)@.stats.insert(wallet, s),
                ..old(self)@
            });
        }
    }

    /// The earnings record of `wallet`, if one was created.
    pub(crate) fn get_earnings(&self, wallet: u64) -> (r: Option<PlayerEarnings>)
        ensures
            r == if self@.earnings.contains_key(wallet) {
                Some(self@.earnings[wallet])
            } else {
                (None::<PlayerEarnings>)
            },
    {
        match self.earnings.get(&wallet) {
            Some(e) => Some(*e),
            None => None,
        }
    }

    /// Stores `e` as the earnings record of `wallet`.
    pub(crate) fn put_earnings(&mut self, wallet: u64, e: PlayerEarnings)
        ensures
            final(self)@ == (ContractView {
                earnings: old(self)@.earnings.insert(wallet, e),
                ..old(self)@
            }),
    {
        self.earnings.insert(wallet, e);
        proof {
            assert(self@ =~~= ContractView {
                earnings: old(self)@.earnings.insert(wallet, e),
                ..old(self)@
            });
        }
    }

    /// Overwrites the global running total.
    pub(crate) fn set_total_kale_earned(&mut self, v: u128)
        ensures
            final(self)@ == (ContractView { total_kale_earned: v, ..old(self)@ }),
    {
        self.total_kale_earned = v;
        proof {
            assert(self@ =~~= ContractView { total_kale_earned: v, ..old(self)@ });
        }
    }

    /// The earnings record of circle `circle_id`, if one was created.
    pub(crate) fn get_circle_earnings_record(&self, circle_id: u32) -> (r: Option<CircleEarnings>)
        ensures
            r == if self@.circle_earnings.contains_key(circle_id) {
                Some(self@.circle_earnings[circle_id])
            } else {
                (None::<CircleEarnings>)
            },
    {
        match self.circle_earnings.get(&(circle_id as u64)) {
            Some(e) => Some(*e),
            None => None,
        }
    }

    /// Stores `e` as the earnings record of circle `circle_id`.
    pub(crate) fn put_circle_earnings(&mut self, circle_id: u32, e: CircleEarnings)
        ensures
            final(self)@ == (ContractView {
                circle_earnings: old(self)@.circle_earnings.insert(circle_id, e),
                ..old(self)@
            }),
    {
        self.circle_earnings.insert(circle_id as u64, e);
        proof {
            assert(self@ =~~= ContractView {
                circle_earnings: old(self)@.circle_earnings.insert(circle_id, e),
                ..old(self)@
            });
        }
    }
}

} // verus!
