//! The harvest round: pooling externally collected yield per circle and
//! distributing it.
//!
//! The external value-transfer services (the stake-token ledger and the
//! mining program) live outside this library; what they did for one round
//! arrives here as plain event records — one balance pair, harvest-call
//! outcome and pull outcome per member, and one transfer outcome per
//! attempted payout. The decision logic over those events is verified: how a
//! member's harvested amount is inferred, how a circle's pool is formed, and
//! how the pool is split and booked.

use vstd::prelude::*;

use crate::errors::Error;
use crate::records::{Circle, CircleEarnings, CircleView, HarvestResult};
use crate::state::{Contract, ContractView};
use crate::stats::{
    bump_earnings, lemma_bump_earnings_wf, lemma_membership_unchanged, EarnKind,
};

verus! {

/// What the external services reported for one member in one round: the
/// member's token balance before and after the mining program's harvest call
/// (`None` where a read failed), whether that call succeeded, and whether the
/// transfer pulling the harvested amount into the contract's custody
/// succeeded.
#[derive(Clone, Copy, Debug)]
pub struct MemberYieldEvent {
    pub balance_before: Option<u128>,
    pub harvest_ok: bool,
    pub balance_after: Option<u128>,
    pub pull_ok: bool,
}

/// The external outcomes of one circle's round: one yield event per member,
/// one payout-transfer outcome per member for the base share, one for the
/// remainder payment, and one for a betrayer payout.
#[derive(Debug)]
pub struct CircleRoundEvents {
    pub member_events: Vec<MemberYieldEvent>,
    pub base_ok: Vec<bool>,
    pub remainder_ok: bool,
    pub betrayer_ok: bool,
}

/// What one member contributed: a failed balance read is a transfer failure,
/// a failed harvest call a harvest failure; otherwise the harvested amount is
/// inferred as the non-negative balance delta around the harvest call.
pub open spec fn member_outcome(ev: MemberYieldEvent) -> Result<u128, Error> {
    match ev.balance_before {
        Option::None => Err(Error::TokenTransferFailed),
        Option::Some(b0) => {
            if !ev.harvest_ok {
                Err(Error::HarvestFailed)
            } else {
                match ev.balance_after {
                    Option::None => Err(Error::TokenTransferFailed),
                    Option::Some(b1) => Ok(
                        if b1 > b0 {
                            (b1 - b0) as u128
                        } else {
                            0
                        },
                    ),
                }
            }
        },
    }
}

/// The pool a circle collects in one round: the sum (saturating) of every
/// member's positive harvested amount whose pull into custody succeeded;
/// failed members are skipped without affecting the rest.
pub open spec fn pooled(evs: Seq<MemberYieldEvent>) -> u128
    decreases evs.len(),
{
    if evs.len() == 0 {
        0
    } else {
        let rest = pooled(evs.drop_last());
        match member_outcome(evs.last()) {
            Ok(a) => {
                if a > 0 && evs.last().pull_ok {
                    rest.saturating_add(a)
                } else {
                    rest
                }
            },
            Err(_) => rest,
        }
    }
}

/// How many payout transfers succeeded.
pub open spec fn count_true(flags: Seq<bool>) -> nat
    decreases flags.len(),
{
    if flags.len() == 0 {
        0
    } else {
        count_true(flags.drop_last()) + if flags.last() {
            1nat
        } else {
            0nat
        }
    }
}

/// Pays the base share to each member whose transfer succeeded, crediting
/// own-circle earnings to the creator and joined-circle earnings to anyone
/// else, and returns the new state with the amount actually paid.
pub open spec fn pay_bases(
    s: ContractView,
    members: Seq<u64>,
    flags: Seq<bool>,
    creator: u64,
    base: u128,
) -> (ContractView, u128)
    decreases members.len(),
{
    if members.len() == 0 || members.len() != flags.len() {
        (s, 0)
    } else {
        let (s1, paid) = pay_bases(s, members.drop_last(), flags.drop_last(), creator, base);
        if base > 0 && flags.last() {
            let w = members.last();
            let kind = if w == creator {
                EarnKind::OwnCircle
            } else {
                EarnKind::JoinedCircle
            };
            (bump_earnings(s1, w, base, kind), paid.saturating_add(base))
        } else {
            (s1, paid)
        }
    }
}

/// Pays the remainder to the first member (in join order), if there is one,
/// the remainder is positive, and its transfer succeeded.
pub open spec fn pay_remainder(
    s: ContractView,
    members: Seq<u64>,
    creator: u64,
    rem: u128,
    rem_ok: bool,
) -> (ContractView, u128) {
    if rem > 0 && members.len() > 0 && rem_ok {
        let w = members[0];
        let kind = if w == creator {
            EarnKind::OwnCircle
        } else {
            EarnKind::JoinedCircle
        };
        (bump_earnings(s, w, rem, kind), rem)
    } else {
        (s, 0)
    }
}

/// How a pooled amount is distributed. For a betrayed circle the whole pool
/// goes to the recorded betrayer as betrayal earnings (or the round fails
/// with `TokenTransferFailed` if that payout transfer failed; with no
/// betrayer recorded nothing is distributed). Otherwise the pool is split
/// `base = pool / n`, `rem = pool % n` over the `n` members: the base share
/// goes to every member whose transfer succeeded, the remainder additionally
/// to the first member, and the amount actually paid — which is less than the
/// pool exactly where transfers failed — is returned.
pub open spec fn distribute_applied(
    s: ContractView,
    c: CircleView,
    members: Seq<u64>,
    pool: u128,
    flags: Seq<bool>,
    rem_ok: bool,
    betr_ok: bool,
) -> (ContractView, Result<u128, Error>) {
    if pool == 0 {
        (s, Ok(0))
    } else if c.betrayed {
        match c.betrayer {
            Option::Some(b) => {
                if betr_ok {
                    (bump_earnings(s, b, pool, EarnKind::Betrayal), Ok(pool))
                } else {
                    (s, Err(Error::TokenTransferFailed))
                }
            },
            Option::None => (s, Ok(0)),
        }
    } else {
        if members.len() > 0 {
            let base = pool / (members.len() as u128);
            let rem = pool % (members.len() as u128);
            let r1 = pay_bases(s, members, flags, c.creator, base);
            let r2 = pay_remainder(r1.0, members, c.creator, rem, rem_ok);
            (r2.0, Ok(r1.1.saturating_add(r2.1)))
        } else {
            (s, Ok(0))
        }
    }
}

/// Crediting earnings moves only the earnings, statistics and player records.
pub proof fn lemma_bump_earnings_frame(s: ContractView, wallet: u64, amount: u128, kind: EarnKind)
    ensures
        ({
            let t = bump_earnings(s, wallet, amount, kind);
            &&& t.circles == s.circles
            &&& t.members == s.members
            &&& t.joined == s.joined
            &&& t.created == s.created
            &&& t.all_ids == s.all_ids
            &&& t.circle_earnings == s.circle_earnings
            &&& t.next_circle_id == s.next_circle_id
            &&& t.total_kale_earned == s.total_kale_earned
        }),
{
}

/// Paying base shares keeps the invariant and moves only the ledgers.
pub proof fn lemma_pay_bases_wf(
    s: ContractView,
    members: Seq<u64>,
    flags: Seq<bool>,
    creator: u64,
    base: u128,
)
    requires
        s.wf(),
    ensures
        ({
            let t = pay_bases(s, members, flags, creator, base).0;
            &&& t.wf()
            &&& t.circles == s.circles
            &&& t.members == s.members
            &&& t.joined == s.joined
            &&& t.created == s.created
            &&& t.all_ids == s.all_ids
            &&& t.circle_earnings == s.circle_earnings
            &&& t.next_circle_id == s.next_circle_id
            &&& t.total_kale_earned == s.total_kale_earned
        }),
    decreases members.len(),
{
    if members.len() != 0 && members.len() == flags.len() {
        lemma_pay_bases_wf(s, members.drop_last(), flags.drop_last(), creator, base);
        let s1 = pay_bases(s, members.drop_last(), flags.drop_last(), creator, base).0;
        if base > 0 && flags.last() {
            let w = members.last();
            let kind = if w == creator {
                EarnKind::OwnCircle
            } else {
                EarnKind::JoinedCircle
            };
            lemma_bump_earnings_wf(s1, w, base, kind);
            lemma_bump_earnings_frame(s1, w, base, kind);
        }
    }
}

/// A distribution keeps the invariant and moves only the ledgers.
pub proof fn lemma_distribute_wf(
    s: ContractView,
    c: CircleView,
    members: Seq<u64>,
    pool: u128,
    flags: Seq<bool>,
    rem_ok: bool,
    betr_ok: bool,
)
    requires
        s.wf(),
    ensures
        ({
            let t = distribute_applied(s, c, members, pool, flags, rem_ok, betr_ok).0;
            &&& t.wf()
            &&& t.circles == s.circles
            &&& t.members == s.members
            &&& t.joined == s.joined
            &&& t.created == s.created
            &&& t.all_ids == s.all_ids
            &&& t.circle_earnings == s.circle_earnings
            &&& t.next_circle_id == s.next_circle_id
            &&& t.total_kale_earned == s.total_kale_earned
        }),
{
    if pool == 0 {
    } else if c.betrayed {
        match c.betrayer {
            Option::Some(b) => {
                if betr_ok {
                    lemma_bump_earnings_wf(s, b, pool, EarnKind::Betrayal);
                    lemma_bump_earnings_frame(s, b, pool, EarnKind::Betrayal);
                }
            },
            Option::None => {},
        }
    } else {
        if members.len() > 0 {
            let base = pool / (members.len() as u128);
            let rem = pool % (members.len() as u128);
            lemma_pay_bases_wf(s, members, flags, c.creator, base);
            let s1 = pay_bases(s, members, flags, c.creator, base).0;
            if rem > 0 && members.len() > 0 && rem_ok {
                let w = members[0];
                let kind = if w == c.creator {
                    EarnKind::OwnCircle
                } else {
                    EarnKind::JoinedCircle
                };
                lemma_bump_earnings_wf(s1, w, rem, kind);
                lemma_bump_earnings_frame(s1, w, rem, kind);
            }
        }
    }
}

/// How a successful round updates a circle's earnings record: the round's
/// amount is added to the total (saturating), the harvest count grows by one,
/// the truncated average is recomputed, and the amount is remembered as the
/// last harvest.
pub open spec fn circle_earnings_applied(
    s: ContractView,
    circle_id: u32,
    amount: u128,
) -> ContractView {
    let e = s.circle_earnings_of(circle_id);
    let total = e.total_earned.saturating_add(amount);
    let harvests = e.total_harvests.saturating_add(1);
    ContractView {
        circle_earnings: s.circle_earnings.insert(
            circle_id,
            CircleEarnings {
                circle_id,
                total_earned: total,
                total_harvests: harvests,
                average_per_harvest: total / (harvests as u128),
                last_harvest_amount: amount,
            },
        ),
        ..s
    }
}

/// How one circle's harvest is processed: its pool is formed from the member
/// events; a positive pool is distributed, the amount actually paid is added
/// to the circle's cumulative total (saturating), and that amount is the
/// result. A zero pool distributes nothing and succeeds with zero.
pub open spec fn circle_harvest_applied(
    s: ContractView,
    circle_id: u32,
    ev: CircleRoundEvents,
) -> (ContractView, Result<u128, Error>) {
    let c = s.circles[circle_id];
    let pool = pooled(ev.member_events@);
    if pool > 0 {
        let r1 = distribute_applied(
            s,
            c,
            s.members_of(circle_id),
            pool,
            ev.base_ok@,
            ev.remainder_ok,
            ev.betrayer_ok,
        );
        match r1.1 {
            Ok(d) => (
                ContractView {
                    circles: r1.0.circles.insert(
                        circle_id,
                        CircleView { total_kale_earned: c.total_kale_earned.saturating_add(d), ..c },
                    ),
                    ..r1.0
                },
                Ok(d),
            ),
            Err(e) => (r1.0, Err(e)),
        }
    } else {
        (s, Ok(0))
    }
}

/// How the round treats one listed circle id: a missing circle record counts
/// one failed harvest; a circle with no counted or listed members is skipped
/// silently; otherwise its harvest runs with full error isolation — an error
/// counts one failed harvest, a positive distributed amount counts one
/// successful circle and updates the circle's earnings record.
pub open spec fn round_step(s: ContractView, id: u32, ev: CircleRoundEvents) -> (
    ContractView,
    u128,
    bool,
    bool,
) {
    match s.circle(id) {
        Option::None => (s, 0, false, true),
        Option::Some(c) => {
            if c.member_count == 0 {
                (s, 0, false, false)
            } else if s.members_of(id).len() == 0 {
                (s, 0, false, false)
            } else {
                let r1 = circle_harvest_applied(s, id, ev);
                match r1.1 {
                    Ok(d) => {
                        if d > 0 {
                            (circle_earnings_applied(r1.0, id, d), d, true, false)
                        } else {
                            (r1.0, 0, false, false)
                        }
                    },
                    Err(_) => (r1.0, 0, false, true),
                }
            }
        },
    }
}

/// The whole round over a list of circle ids: each id is handled
/// independently, in order, and the distributed amounts and the success and
/// failure counters accumulate (saturating).
pub open spec fn round_applied(
    s: ContractView,
    ids: Seq<u32>,
    events: Seq<CircleRoundEvents>,
) -> (ContractView, u128, u32, u32)
    decreases ids.len(),
{
    if ids.len() == 0 || ids.len() != events.len() {
        (s, 0, 0, 0)
    } else {
        let prev = round_applied(s, ids.drop_last(), events.drop_last());
        let step = round_step(prev.0, ids.last(), events.last());
        (
            step.0,
            prev.1.saturating_add(step.1),
            if step.2 {
                prev.2.saturating_add(1)
            } else {
                prev.2
            },
            if step.3 {
                prev.3.saturating_add(1)
            } else {
                prev.3
            },
        )
    }
}

/// The whole batch entry point: the round runs over every listed circle, and
/// a positive round total is added to the global running total (saturating).
/// No per-circle or per-member failure ever propagates: the report is the
/// only record of them.
pub open spec fn harvest_round_applied(s: ContractView, events: Seq<CircleRoundEvents>) -> (
    ContractView,
    HarvestResult,
) {
    let r = round_applied(s, s.all_ids, events);
    let t = if r.1 > 0 {
        ContractView { total_kale_earned: r.0.total_kale_earned.saturating_add(r.1), ..r.0 }
    } else {
        r.0
    };
    (
        t,
        HarvestResult {
            total_distributed: r.1,
            successful_circles: r.2,
            failed_harvests: r.3,
        },
    )
}

/// Adding to a circle's cumulative total keeps the invariant and moves
/// nothing else.
pub proof fn lemma_circle_total_wf(s: ContractView, circle_id: u32, d: u128)
    requires
        s.wf(),
        s.circles.contains_key(circle_id),
    ensures
        ({
            let c = s.circles[circle_id];
            let t = ContractView {
                circles: s.circles.insert(
                    circle_id,
                    CircleView { total_kale_earned: c.total_kale_earned.saturating_add(d), ..c },
                ),
                ..s
            };
            t.wf() && t.members == s.members && t.joined == s.joined
        }),
{
    let c = s.circles[circle_id];
    let t = ContractView {
        circles: s.circles.insert(
            circle_id,
            CircleView { total_kale_earned: c.total_kale_earned.saturating_add(d), ..c },
        ),
        ..s
    };
    lemma_membership_unchanged(s, t);
}

/// Updating a circle's earnings record keeps the invariant and moves nothing
/// else.
pub proof fn lemma_circle_earnings_wf(s: ContractView, circle_id: u32, amount: u128)
    requires
        s.wf(),
    ensures
        ({
            let t = circle_earnings_applied(s, circle_id, amount);
            t.wf() && t.members == s.members && t.joined == s.joined
        }),
{
    lemma_membership_unchanged(s, circle_earnings_applied(s, circle_id, amount));
}

/// One circle's harvest keeps the invariant and leaves the membership maps
/// alone.
pub proof fn lemma_circle_harvest_wf(s: ContractView, circle_id: u32, ev: CircleRoundEvents)
    requires
        s.wf(),
        s.circles.contains_key(circle_id),
    ensures
        ({
            let t = circle_harvest_applied(s, circle_id, ev).0;
            t.wf() && t.members == s.members && t.joined == s.joined
        }),
{
    let c = s.circles[circle_id];
    let pool = pooled(ev.member_events@);
    if pool > 0 {
        lemma_distribute_wf(
            s,
            c,
            s.members_of(circle_id),
            pool,
            ev.base_ok@,
            ev.remainder_ok,
            ev.betrayer_ok,
        );
        let r1 = distribute_applied(
            s,
            c,
            s.members_of(circle_id),
            pool,
            ev.base_ok@,
            ev.remainder_ok,
            ev.betrayer_ok,
        );
        match r1.1 {
            Ok(d) => {
                lemma_circle_total_wf(r1.0, circle_id, d);
            },
            Err(_) => {},
        }
    }
}

/// One round step keeps the invariant and leaves the membership maps alone.
pub proof fn lemma_round_step_wf(s: ContractView, id: u32, ev: CircleRoundEvents)
    requires
        s.wf(),
    ensures
        ({
            let t = round_step(s, id, ev).0;
            t.wf() && t.members == s.members && t.joined == s.joined
        }),
{
    match s.circle(id) {
        Option::None => {},
        Option::Some(c) => {
            if c.member_count == 0 || s.members_of(id).len() == 0 {
            } else {
                lemma_circle_harvest_wf(s, id, ev);
                let r1 = circle_harvest_applied(s, id, ev);
                match r1.1 {
                    Ok(d) => {
                        if d > 0 {
                            lemma_circle_earnings_wf(r1.0, id, d);
                        }
                    },
                    Err(_) => {},
                }
            }
        },
    }
}

impl Contract {
    /// Infers one member's harvested amount from its yield event: a failed
    /// balance read or harvest call is that member's error, otherwise the
    /// non-negative balance delta around the harvest call is the harvested
    /// amount. (The mining program reports no amount itself, so the delta is
    /// the only measure available; an unrelated balance change in that window
    /// would be misattributed as yield.)
    pub fn safe_harvest_member(ev: &MemberYieldEvent) -> (r: Result<u128, Error>)
        ensures
            r == member_outcome(*ev),
    {
        let b0 = match ev.balance_before {
            Some(b) => b,
            None => {
                return Err(Error::TokenTransferFailed);
            },
        };
        if !ev.harvest_ok {
            return Err(Error::HarvestFailed);
        }
        let b1 = match ev.balance_after {
            Some(b) => b,
            None => {
                return Err(Error::TokenTransferFailed);
            },
        };
        if b1 > b0 {
            Ok(b1 - b0)
        } else {
            Ok(0)
        }
    }

    /// Distributes a circle's pooled harvest according to its trust state and
    /// the payout-transfer outcomes in `events`, credits the recipients'
    /// earnings ledgers, and returns the amount actually paid.
    pub(crate) fn safe_distribute_pooled_harvest(
        &mut self,
        circle_id: u32,
        pool: u128,
        events: &CircleRoundEvents,
    ) -> (r: Result<u128, Error>)
        requires
            old(self)@.wf(),
            old(self)@.circles.contains_key(circle_id),
            events.base_ok@.len() == old(self)@.members_of(circle_id).len(),
        ensures
            final(self)@.wf(),
            ({
                let (t, res) = distribute_applied(
                    old(self)@,
                    old(self)@.circles[circle_id],
                    old(self)@.members_of(circle_id),
                    pool,
                    events.base_ok@,
                    events.remainder_ok,
                    events.betrayer_ok,
                );
                final(self)@ == t && r == res
            }),
    {
        proof {
            lemma_distribute_wf(
                old(self)@,
                old(self)@.circles[circle_id],
                old(self)@.members_of(circle_id),
                pool,
                events.base_ok@,
                events.remainder_ok,
                events.betrayer_ok,
            );
        }
        if pool == 0 {
            return Ok(0);
        }
        let (betrayed, creator, betrayer) = match self.get_circle(circle_id) {
            Some(c) => (c.betrayed, c.creator, c.betrayer),
            None => {
                return Err(Error::TokenTransferFailed);
            },
        };
        if betrayed {
            match betrayer {
                Some(b) => {
                    if events.betrayer_ok {
                        self.update_player_earnings(b, pool, EarnKind::Betrayal);
                        return Ok(pool);
                    } else {
                        return Err(Error::TokenTransferFailed);
                    }
                },
                None => {
                    return Ok(0);
                },
            }
        }
        let members = match self.get_members(circle_id) {
            Some(v) => crate::state::vec_copy_u64(v),
            None => Vec::new(),
        };
        let n = members.len();
        if n == 0 {
            return Ok(0);
        }
        let base = pool / (n as u128);
        let rem = pool % (n as u128);
        let ghost s0 = self@;
        let ghost mseq = old(self)@.members_of(circle_id);
        let ghost flags = events.base_ok@;
        let mut distributed: u128 = 0;
        let mut i: usize = 0;
        while i < n
            invariant
                self@.wf(),
                0 <= i <= n,
                n == mseq.len() == flags.len() == members@.len(),
                members@ == mseq,
                (self@, distributed) == pay_bases(s0, mseq.take(i as int), flags.take(i as int), creator, base),
                events.base_ok@ == flags,
                events.base_ok@.len() == n,
            decreases n - i,
        {
            proof {
                assert(mseq.take(i + 1 as int).drop_last() =~= mseq.take(i as int));
                assert(flags.take(i + 1 as int).drop_last() =~= flags.take(i as int));
            }
            if base > 0 && events.base_ok[i] {
                let w = members[i];
                if w == creator {
                    self.update_player_earnings(w, base, EarnKind::OwnCircle);
                } else {
                    self.update_player_earnings(w, base, EarnKind::JoinedCircle);
                }
                distributed = distributed.saturating_add(base);
            }
            i += 1;
        }
        proof {
            assert(mseq.take(n as int) =~= mseq);
            assert(flags.take(n as int) =~= flags);
        }
        if rem > 0 && events.remainder_ok {
            let w = members[0];
            if w == creator {
                self.update_player_earnings(w, rem, EarnKind::OwnCircle);
            } else {
                self.update_player_earnings(w, rem, EarnKind::JoinedCircle);
            }
            distributed = distributed.saturating_add(rem);
        }
        Ok(distributed)
    }

    /// Books one successful round into the circle's earnings record.
    pub(crate) fn update_circle_earnings(&mut self, circle_id: u32, amount: u128)
        requires
            old(self)@.wf(),
        ensures
            final(self)@.wf(),
            final(self)@ == circle_earnings_applied(old(self)@, circle_id, amount),
            final(self)@.members == old(self)@.members,
            final(self)@.joined == old(self)@.joined,
    {
        proof {
            lemma_circle_earnings_wf(old(self)@, circle_id, amount);
        }
        let e = match self.get_circle_earnings_record(circle_id) {
            Some(e) => e,
            None => CircleEarnings {
                circle_id,
                total_earned: 0,
                total_harvests: 0,
                average_per_harvest: 0,
                last_harvest_amount: 0,
            },
        };
        let total = e.total_earned.saturating_add(amount);
        let harvests = e.total_harvests.saturating_add(1);
        self.put_circle_earnings(
            circle_id,
            CircleEarnings {
                circle_id,
                total_earned: total,
                total_harvests: harvests,
                average_per_harvest: total / (harvests as u128),
                last_harvest_amount: amount,
            },
        );
        proof {
            assert(self@ =~~= circle_earnings_applied(old(self)@, circle_id, amount));
        }
    }

    /// Runs one circle's harvest with full error isolation: pools the
    /// members' harvested amounts from their events, distributes a positive
    /// pool, adds what was actually paid to the circle's cumulative total,
    /// and returns it. The only error is a failed betrayer payout.
    pub fn process_circle_harvest(&mut self, circle_id: u32, events: &CircleRoundEvents) -> (r:
        Result<u128, Error>)
        requires
            old(self)@.wf(),
            old(self)@.circles.contains_key(circle_id),
            events.member_events@.len() == old(self)@.members_of(circle_id).len(),
            events.base_ok@.len() == old(self)@.members_of(circle_id).len(),
        ensures
            final(self)@.wf(),
            final(self)@.members == old(self)@.members,
            final(self)@.joined == old(self)@.joined,
            ({
                let step = circle_harvest_applied(old(self)@, circle_id, *events);
                final(self)@ == step.0 && r == step.1
            }),
    {
        proof {
            lemma_circle_harvest_wf(old(self)@, circle_id, *events);
        }
        let mut pool: u128 = 0;
        let mut i: usize = 0;
        let m = events.member_events.len();
        while i < m
            invariant
                0 <= i <= m,
                m == events.member_events@.len(),
                pool == pooled(events.member_events@.take(i as int)),
            decreases m - i,
        {
            proof {
                assert(events.member_events@.take(i + 1 as int).drop_last()
                    =~= events.member_events@.take(i as int));
            }
            let mev = &events.member_events[i];
            match Self::safe_harvest_member(mev) {
                Ok(a) => {
                    if a > 0 && mev.pull_ok {
                        pool = pool.saturating_add(a);
                    }
                },
                Err(_) => {},
            }
            i += 1;
        }
        proof {
            assert(events.member_events@.take(m as int) =~= events.member_events@);
        }
        if pool == 0 {
            return Ok(0);
        }
        proof {
            lemma_distribute_wf(
                old(self)@,
                old(self)@.circles[circle_id],
                old(self)@.members_of(circle_id),
                pool,
                events.base_ok@,
                events.remainder_ok,
                events.betrayer_ok,
            );
        }
        match self.safe_distribute_pooled_harvest(circle_id, pool, events) {
            Ok(d) => {
                let c = self.take_circle(circle_id).unwrap();
                self.put_circle(
                    circle_id,
                    Circle { total_kale_earned: c.total_kale_earned.saturating_add(d), ..c },
                );
                proof {
                    assert(self@ =~~= circle_harvest_applied(old(self)@, circle_id, *events).0);
                }
                Ok(d)
            },
            Err(e) => Err(e),
        }
    }

    /// Runs one harvest round over every listed circle, with per-circle
    /// failure isolation: a missing circle record or a failed per-circle
    /// harvest only counts one failed harvest, a circle without members is
    /// skipped silently, and a positive round total is added to the global
    /// running total. The round itself never fails; the returned report is
    /// the only record of what happened. `events[i]` holds the external
    /// outcomes for the circle at position `i` of the stored id list.
    pub fn harvest_and_distribute_all(&mut self, events: &Vec<CircleRoundEvents>) -> (r:
        HarvestResult)
        requires
            old(self)@.wf(),
            events@.len() == old(self)@.all_ids.len(),
            forall|i: int|
                0 <= i < events@.len() ==> (#[trigger] events@[i]).member_events@.len() == old(
                    self,
                )@.members_of(old(self)@.all_ids[i]).len() && events@[i].base_ok@.len() == old(
                    self,
                )@.members_of(old(self)@.all_ids[i]).len(),
        ensures
            final(self)@.wf(),
            ({
                let round = harvest_round_applied(old(self)@, events@);
                final(self)@ == round.0 && r == round.1
            }),
    {
        let ids = crate::state::vec_copy_u32(&self.all_ids);
        let n = ids.len();
        let ghost s0 = self@;
        let mut total: u128 = 0;
        let mut succ: u32 = 0;
        let mut fail: u32 = 0;
        let mut i: usize = 0;
        while i < n
            invariant
                0 <= i <= n,
                n == ids@.len() == events@.len(),
                ids@ == s0.all_ids,
                self@.wf(),
                self@.members == s0.members,
                self@.joined == s0.joined,
                (self@, total, succ, fail) == round_applied(s0, ids@.take(i as int), events@.take(i as int)),
                forall|j: int|
                    0 <= j < events@.len() ==> (#[trigger] events@[j]).member_events@.len()
                        == s0.members_of(s0.all_ids[j]).len() && events@[j].base_ok@.len()
                        == s0.members_of(s0.all_ids[j]).len(),
            decreases n - i,
        {
            proof {
                assert(ids@.take(i + 1 as int).drop_last() =~= ids@.take(i as int));
                assert(events@.take(i + 1 as int).drop_last() =~= events@.take(i as int));
                lemma_round_step_wf(self@, ids@[i as int], events@[i as int]);
                lemma_membership_unchanged(s0, self@);
            }
            let id = ids[i];
            let ev = &events[i];
            let member_count = match self.get_circle(id) {
                Some(c) => Some(c.member_count),
                None => None,
            };
            match member_count {
                None => {
                    fail = fail.saturating_add(1);
                },
                Some(mc) => {
                    if mc > 0 {
                        let has_members = match self.get_members(id) {
                            Some(v) => v.len() > 0,
                            None => false,
                        };
                        if has_members {
                            match self.process_circle_harvest(id, ev) {
                                Ok(d) => {
                                    total = total.saturating_add(d);
                                    if d > 0 {
                                        succ = succ.saturating_add(1);
                                        self.update_circle_earnings(id, d);
                                    }
                                },
                                Err(_) => {
                                    fail = fail.saturating_add(1);
                                },
                            }
                        }
                    }
                },
            }
            i += 1;
        }
        proof {
            assert(ids@.take(n as int) =~= ids@);
            assert(events@.take(n as int) =~= events@);
        }
        let ghost pre = self@;
        if total > 0 {
            let t = self.total_kale_earned.saturating_add(total);
            self.set_total_kale_earned(t);
        }
        proof {
            lemma_membership_unchanged(pre, self@);
            assert(self@.wf());
            assert(self@ =~~= harvest_round_applied(s0, events@).0);
        }
        HarvestResult { total_distributed: total, successful_circles: succ, failed_harvests: fail }
    }
}

} // verus!
