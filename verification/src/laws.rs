//! The laws the library lives by, stated over the view-level transitions that
//! every entry point is proved to implement, and proved once and for all.

use vstd::prelude::*;

use crate::errors::Error;
use crate::harvest::{count_true, distribute_applied, pay_bases, pay_remainder};
use crate::records::{CircleView, PlayerStats};
use crate::registry::{
    betray_applied, betray_outcome, create_applied, create_outcome, join_applied, join_outcome,
    password_check, set_password_applied, set_password_outcome,
};
use crate::scoreboard::entry_of;
use crate::state::ContractView;
use crate::stats::EarnKind;

verus! {

broadcast use vstd::seq_lib::lemma_seq_contains_after_push;

/// For every wallet, at most one circle names it as creator: any two stored
/// circles with the same creator are the same circle.
pub proof fn lemma_creator_unique(s: ContractView, id1: u32, id2: u32)
    requires
        s.wf(),
        s.circles.contains_key(id1),
        s.circles.contains_key(id2),
        s.circles[id1].creator == s.circles[id2].creator,
    ensures
        id1 == id2,
{
    assert(s.created[s.circles[id1].creator] == id1);
    assert(s.created[s.circles[id2].creator] == id2);
}

/// After a wallet successfully creates a circle, a second create by the same
/// wallet fails with `AlreadyCreatedCircle`, whatever name and password it
/// brings.
pub proof fn lemma_second_create_fails(
    s: ContractView,
    creator: u64,
    name: Seq<char>,
    password_hash: Seq<u8>,
)
    requires
        create_outcome(s, creator) is Ok,
    ensures
        create_outcome(create_applied(s, creator, name, password_hash), creator) == Err::<
            u32,
            Error,
        >(Error::AlreadyCreatedCircle),
{
}

/// Joining is idempotent: after one successful join, the identical join
/// succeeds again and leaves the whole state — member list, joined list and
/// member count included — exactly as it was.
pub proof fn lemma_join_idempotent(s: ContractView, joiner: u64, circle_id: u32, password: Seq<u8>)
    requires
        s.wf(),
        join_outcome(s, joiner, circle_id, password) is Ok,
    ensures
        ({
            let s1 = join_applied(s, joiner, circle_id, password);
            &&& join_outcome(s1, joiner, circle_id, password) == Ok::<bool, Error>(true)
            &&& join_applied(s1, joiner, circle_id, password) == s1
        }),
{
    let s1 = join_applied(s, joiner, circle_id, password);
    if !s.joined_of(joiner).contains(circle_id) && !s.members_of(circle_id).contains(joiner) {
        assert(s1.joined_of(joiner) == s.joined_of(joiner).push(circle_id));
        assert(s1.joined_of(joiner).contains(circle_id));
        assert(s1.circles[circle_id].betrayed == s.circles[circle_id].betrayed);
        assert(s1.circles[circle_id].creator == s.circles[circle_id].creator);
        assert(s1.circles[circle_id].password_hash == s.circles[circle_id].password_hash);
    }
}

/// Betrayal is terminal: on a betrayed circle every join and betrayal fails
/// with `CircleBetrayed` and changes nothing, and a password change fails too
/// — with `CircleBetrayed` when the creator asks, with `NotOwner` before that
/// check for anyone else — and changes nothing.
pub proof fn lemma_betrayed_is_terminal(
    s: ContractView,
    circle_id: u32,
    wallet: u64,
    password: Seq<u8>,
    caller: u64,
    new_hash: Seq<u8>,
)
    requires
        s.circles.contains_key(circle_id),
        s.circles[circle_id].betrayed,
    ensures
        join_outcome(s, wallet, circle_id, password) == Err::<bool, Error>(Error::CircleBetrayed),
        join_applied(s, wallet, circle_id, password) == s,
        betray_outcome(s, wallet, circle_id, password) == Err::<bool, Error>(
            Error::CircleBetrayed,
        ),
        betray_applied(s, wallet, circle_id, password) == s,
        set_password_outcome(s, caller, circle_id) is Err,
        caller == s.circles[circle_id].creator ==> set_password_outcome(s, caller, circle_id)
            == Err::<bool, Error>(Error::CircleBetrayed),
        set_password_applied(s, caller, circle_id, new_hash) == s,
{
}

/// A betrayed flag never reverts: no single action, on this or any other
/// circle, changes a betrayed circle's record at all.
pub proof fn lemma_betrayed_monotonic(
    s: ContractView,
    circle_id: u32,
    wallet: u64,
    other: u32,
    name: Seq<char>,
    password: Seq<u8>,
    new_hash: Seq<u8>,
)
    requires
        s.wf(),
        s.circles.contains_key(circle_id),
        s.circles[circle_id].betrayed,
    ensures
        create_applied(s, wallet, name, password).circles[circle_id] == s.circles[circle_id],
        join_applied(s, wallet, other, password).circles[circle_id] == s.circles[circle_id],
        betray_applied(s, wallet, other, password).circles[circle_id] == s.circles[circle_id],
        set_password_applied(s, wallet, other, new_hash).circles[circle_id] == s.circles[circle_id],
{
    assert(circle_id < s.next_circle_id);
    if other == circle_id {
        lemma_betrayed_is_terminal(s, circle_id, wallet, password, wallet, new_hash);
    }
}

/// A wrong (or over-long) password on join or betray never mutates circle or
/// membership state: the call fails and the state stays exactly as it was.
pub proof fn lemma_wrong_password_no_mutation(
    s: ContractView,
    wallet: u64,
    circle_id: u32,
    password: Seq<u8>,
)
    requires
        s.circles.contains_key(circle_id),
        password_check(password, s.circles[circle_id].password_hash) is Err,
    ensures
        join_outcome(s, wallet, circle_id, password) is Err,
        join_applied(s, wallet, circle_id, password) == s,
        betray_outcome(s, wallet, circle_id, password) is Err,
        betray_applied(s, wallet, circle_id, password) == s,
{
}

/// How many transfers succeeded is at most how many were attempted, and
/// exactly that many when every one succeeded.
pub proof fn lemma_count_true_le(flags: Seq<bool>)
    ensures
        count_true(flags) <= flags.len(),
        (forall|i: int| 0 <= i < flags.len() ==> flags[i]) ==> count_true(flags) == flags.len(),
    decreases flags.len(),
{
    if flags.len() > 0 {
        lemma_count_true_le(flags.drop_last());
        if forall|i: int| 0 <= i < flags.len() ==> flags[i] {
            assert(forall|i: int| 0 <= i < flags.drop_last().len() ==> flags.drop_last()[i]);
            assert(flags.last());
        }
    }
}

/// The base shares actually paid amount to the base times the number of
/// successful transfers.
pub proof fn lemma_pay_bases_paid(
    s: ContractView,
    members: Seq<u64>,
    flags: Seq<bool>,
    creator: u64,
    base: u128,
)
    requires
        members.len() == flags.len(),
        base * members.len() <= u128::MAX,
    ensures
        pay_bases(s, members, flags, creator, base).1 == base * count_true(flags),
    decreases members.len(),
{
    if members.len() != 0 {
        let mp = members.drop_last();
        let fp = flags.drop_last();
        lemma_count_true_le(fp);
        lemma_count_true_le(flags);
        assert(base * mp.len() <= base * members.len()) by (nonlinear_arith)
            requires
                mp.len() <= members.len(),
                base >= 0,
        ;
        lemma_pay_bases_paid(s, mp, fp, creator, base);
        if base > 0 && flags.last() {
            assert(count_true(flags) == count_true(fp) + 1);
            assert(base * count_true(flags) == base * count_true(fp) + base) by (nonlinear_arith)
                requires
                    count_true(flags) == count_true(fp) + 1,
            ;
            assert(base * count_true(flags) <= base * members.len()) by (nonlinear_arith)
                requires
                    count_true(flags) <= members.len(),
                    base >= 0,
            ;
        } else if !flags.last() {
            assert(count_true(flags) == count_true(fp));
        } else {
            assert(base * count_true(flags) == 0) by (nonlinear_arith)
                requires
                    base == 0,
            ;
            assert(base * count_true(fp) == 0) by (nonlinear_arith)
                requires
                    base == 0,
            ;
        }
    } else {
        assert(count_true(flags) == 0);
        assert(base * count_true(flags) == 0) by (nonlinear_arith)
            requires
                count_true(flags) == 0,
        ;
    }
}

/// Distribution conservation for a non-betrayed circle with pool `P` and `N`
/// members: `base * N + remainder == P` for `base = P / N`, `remainder =
/// P % N`; the amount actually paid never exceeds `P`; and it equals `P`
/// when every attempted transfer succeeded.
pub proof fn lemma_distribution_conservation(
    s: ContractView,
    c: CircleView,
    members: Seq<u64>,
    pool: u128,
    flags: Seq<bool>,
    rem_ok: bool,
    betr_ok: bool,
)
    requires
        !c.betrayed,
        pool > 0,
        members.len() > 0,
        members.len() <= u64::MAX,
        flags.len() == members.len(),
    ensures
        ({
            let n = members.len() as int;
            let base = pool as int / n;
            let rem = pool as int % n;
            let r = distribute_applied(s, c, members, pool, flags, rem_ok, betr_ok);
            &&& base * n + rem == pool
            &&& (r.1 matches Ok(d) && d <= pool)
            &&& ((forall|i: int| 0 <= i < flags.len() ==> flags[i]) && (rem == 0 || rem_ok)
                ==> (r.1 matches Ok(d) && d == pool))
        }),
{
    let n = members.len() as int;
    let basei = pool as int / n;
    let remi = pool as int % n;
    let nb = members.len() as u128;
    let base = pool / nb;
    let rem = pool % nb;
    vstd::arithmetic::div_mod::lemma_fundamental_div_mod(pool as int, n);
    vstd::arithmetic::div_mod::lemma_mod_bound(pool as int, n);
    vstd::arithmetic::div_mod::lemma_div_pos_is_pos(pool as int, n);
    assert(base == basei);
    assert(rem == remi);
    assert(basei * n == n * basei) by (nonlinear_arith);
    assert(basei * n + remi == pool);
    assert(base * members.len() <= u128::MAX);
    lemma_count_true_le(flags);
    lemma_pay_bases_paid(s, members, flags, c.creator, base);
    let r1 = pay_bases(s, members, flags, c.creator, base);
    assert(r1.1 == base * count_true(flags));
    vstd::arithmetic::mul::lemma_mul_inequality(count_true(flags) as int, n, basei);
    assert(count_true(flags) as int * basei == basei * count_true(flags) as int)
        by (nonlinear_arith);
    assert(r1.1 <= basei * n);
    let r2 = pay_remainder(r1.0, members, c.creator, rem, rem_ok);
    assert(r2.1 <= remi);
    assert(r1.1 + r2.1 <= pool);
    if (forall|i: int| 0 <= i < flags.len() ==> flags[i]) && (remi == 0 || rem_ok) {
        assert(count_true(flags) == flags.len());
        assert(r1.1 == basei * n) by {
            assert(base * count_true(flags) == basei * n) by (nonlinear_arith)
                requires
                    base == basei,
                    count_true(flags) == n,
            ;
        }
        assert(r2.1 == remi);
    }
}

/// Betrayed-circle distribution: with a betrayer recorded and its payout
/// transfer successful, the entire pool is credited to the betrayer's
/// betrayal earnings and nothing changes for anyone else; if that one payout
/// fails, the round fails and nothing changes at all.
pub proof fn lemma_betrayal_distribution(
    s: ContractView,
    c: CircleView,
    betrayer: u64,
    members: Seq<u64>,
    pool: u128,
    flags: Seq<bool>,
    rem_ok: bool,
    betr_ok: bool,
)
    requires
        s.wf(),
        c.betrayed,
        c.betrayer == Some(betrayer),
        pool > 0,
    ensures
        ({
            let r = distribute_applied(s, c, members, pool, flags, rem_ok, betr_ok);
            &&& betr_ok ==> {
                &&& r.1 == Ok::<u128, Error>(pool)
                &&& r.0.earnings_of(betrayer).kale_earned_from_betrayals == s.earnings_of(
                    betrayer,
                ).kale_earned_from_betrayals.saturating_add(pool)
                &&& r.0.earnings_of(betrayer).total_kale_earned == s.earnings_of(
                    betrayer,
                ).total_kale_earned.saturating_add(pool)
                &&& forall|w: u64| w != betrayer ==> r.0.earnings_of(w) == s.earnings_of(w)
                &&& forall|w: u64| w != betrayer ==> r.0.stats_of(w) == s.stats_of(w)
                &&& r.0.circles == s.circles
                &&& r.0.members == s.members
            }
            &&& !betr_ok ==> r == (s, Err::<u128, Error>(Error::TokenTransferFailed))
        }),
{
    if betr_ok {
        crate::stats::lemma_bump_earnings_wf(s, betrayer, pool, EarnKind::Betrayal);
        crate::harvest::lemma_bump_earnings_frame(s, betrayer, pool, EarnKind::Betrayal);
    }
}

/// Scoreboard derivation: the trust score is the signed difference of joins
/// and betrayals; the betrayal ratio is betrayals times one hundred over
/// joins, truncated, zero without joins; the per-circle earnings are the
/// truncated quotient of total earnings by joins, zero without joins.
pub proof fn lemma_scoreboard_derivation(st: PlayerStats)
    ensures
        entry_of(st).trust_score == st.circles_joined - st.circles_betrayed,
        st.circles_joined == 0 ==> entry_of(st).betrayal_ratio == 0,
        st.circles_joined == 0 ==> entry_of(st).kale_per_circle == 0,
        st.circles_joined > 0 ==> entry_of(st).betrayal_ratio == (st.circles_betrayed as int * 100)
            / (st.circles_joined as int),
        st.circles_joined > 0 ==> entry_of(st).kale_per_circle == st.total_kale_earned as int
            / (st.circles_joined as int),
{
    if st.circles_joined > 0 {
        vstd::arithmetic::div_mod::lemma_div_nonincreasing(
            st.circles_betrayed as int * 100,
            st.circles_joined as int,
        );
        vstd::arithmetic::div_mod::lemma_div_pos_is_pos(
            st.circles_betrayed as int * 100,
            st.circles_joined as int,
        );
        vstd::arithmetic::div_mod::lemma_div_nonincreasing(
            st.total_kale_earned as int,
            st.circles_joined as int,
        );
        vstd::arithmetic::div_mod::lemma_div_pos_is_pos(
            st.total_kale_earned as int,
            st.circles_joined as int,
        );
    }
}

} // verus!
