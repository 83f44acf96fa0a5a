//! The circle registry: creation, joining, betrayal, and password rotation.
//!
//! Each entry point is a fail-fast single action: it either reports the first
//! error it meets and leaves the state exactly as it was, or applies one
//! deterministic transition, stated here as a spec function over the state
//! view and proved of the executable body.

use vstd::prelude::*;

use crate::errors::Error;
use crate::hashing::{bytes_eq, sha256, sha256_of};
use crate::records::{zero_circle_earnings, Circle, CircleEarnings, CircleView};
use crate::state::{
    lemma_push_preserves_no_duplicates, vec_contains_u32, vec_contains_u64, Contract, ContractView,
};
use crate::stats::{
    bump_betrayed, bump_created, bump_joined, bump_was_betrayed, lemma_bump_counters_wf,
    lemma_membership_unchanged,
};

verus! {

broadcast use vstd::seq_lib::lemma_seq_contains_after_push;

/// How a password attempt is judged against a stored digest: a plaintext over
/// 256 bytes is rejected outright, otherwise its digest must equal the stored
/// one exactly.
pub open spec fn password_check(password: Seq<u8>, stored: Seq<u8>) -> Result<bool, Error> {
    if password.len() > 256 {
        Err(Error::LongPassword)
    } else if sha256_of(password) != stored {
        Err(Error::WrongPassword)
    } else {
        Ok(true)
    }
}

/// What `create_circle` returns: the freshly allocated id, unless the creator
/// already owns a circle.
pub open spec fn create_outcome(s: ContractView, creator: u64) -> Result<u32, Error> {
    if s.created.contains_key(creator) {
        Err(Error::AlreadyCreatedCircle)
    } else {
        Ok(s.next_circle_id)
    }
}

/// The records a successful creation writes, before the creator's counters
/// are bumped.
pub open spec fn create_records(
    s: ContractView,
    creator: u64,
    name: Seq<char>,
    password_hash: Seq<u8>,
) -> ContractView {
    let id = s.next_circle_id;
    ContractView {
        circles: s.circles.insert(
            id,
            CircleView {
                name,
                password_hash,
                betrayed: false,
                creator,
                member_count: 1,
                betrayer: None,
                total_kale_earned: 0,
            },
        ),
        created: s.created.insert(creator, id),
        members: s.members.insert(id, Seq::empty()),
        all_ids: s.all_ids.push(id),
        circle_earnings: s.circle_earnings.insert(id, zero_circle_earnings(id)),
        next_circle_id: (id + 1) as u32,
        ..s
    }
}

/// How `create_circle` changes the state: on failure not at all; on success
/// it writes the new circle's records and counts one creation for the
/// creator.
pub open spec fn create_applied(
    s: ContractView,
    creator: u64,
    name: Seq<char>,
    password_hash: Seq<u8>,
) -> ContractView {
    if s.created.contains_key(creator) {
        s
    } else {
        bump_created(create_records(s, creator, name, password_hash), creator)
    }
}

/// What `join_circle` returns: the checks run in order — existence, not yet
/// betrayed, not the creator's own circle, then the password.
pub open spec fn join_outcome(
    s: ContractView,
    joiner: u64,
    circle_id: u32,
    password: Seq<u8>,
) -> Result<bool, Error> {
    match s.circle(circle_id) {
        Option::None => Err(Error::CircleDoesNotExist),
        Option::Some(c) => {
            if c.betrayed {
                Err(Error::CircleBetrayed)
            } else if c.creator == joiner {
                Err(Error::CannotJoinOwnCircle)
            } else {
                match password_check(password, c.password_hash) {
                    Err(e) => Err(e),
                    Ok(_) => Ok(true),
                }
            }
        },
    }
}

/// The records a first-time join writes, before the joiner's counters are
/// bumped.
pub open spec fn join_records(s: ContractView, joiner: u64, circle_id: u32) -> ContractView {
    let c = s.circles[circle_id];
    ContractView {
        members: s.members.insert(circle_id, s.members_of(circle_id).push(joiner)),
        circles: s.circles.insert(
            circle_id,
            CircleView { member_count: c.member_count.saturating_add(1), ..c },
        ),
        joined: s.joined.insert(joiner, s.joined_of(joiner).push(circle_id)),
        ..s
    }
}

/// How `join_circle` changes the state: not at all on failure, and not at all
/// when the joiner is already a member (joining is idempotent); otherwise the
/// joiner is appended to both membership indices, the member count grows by
/// one (saturating), and one join is counted.
pub open spec fn join_applied(
    s: ContractView,
    joiner: u64,
    circle_id: u32,
    password: Seq<u8>,
) -> ContractView {
    if join_outcome(s, joiner, circle_id, password) is Err {
        s
    } else if s.joined_of(joiner).contains(circle_id) || s.members_of(circle_id).contains(joiner) {
        s
    } else {
        bump_joined(join_records(s, joiner, circle_id), joiner)
    }
}

/// What `betray_circle` returns: the checks run in order — existence, not
/// already betrayed, not the creator (who cannot betray their own circle),
/// then the password.
pub open spec fn betray_outcome(
    s: ContractView,
    betrayer: u64,
    circle_id: u32,
    password: Seq<u8>,
) -> Result<bool, Error> {
    match s.circle(circle_id) {
        Option::None => Err(Error::CircleDoesNotExist),
        Option::Some(c) => {
            if c.betrayed {
                Err(Error::CircleBetrayed)
            } else if c.creator == betrayer {
                Err(Error::NotOwner)
            } else {
                match password_check(password, c.password_hash) {
                    Err(e) => Err(e),
                    Ok(_) => Ok(true),
                }
            }
        },
    }
}

/// The circle record a successful betrayal writes, before any counters are
/// bumped.
pub open spec fn betray_records(s: ContractView, betrayer: u64, circle_id: u32) -> ContractView {
    let c = s.circles[circle_id];
    ContractView {
        circles: s.circles.insert(
            circle_id,
            CircleView { betrayed: true, betrayer: Some(betrayer), ..c },
        ),
        ..s
    }
}

/// How `betray_circle` changes the state: on success the circle is marked
/// betrayed with the betrayer recorded — a terminal transition — and one
/// betrayal is counted for the betrayer, one suffered betrayal for the
/// creator.
pub open spec fn betray_applied(
    s: ContractView,
    betrayer: u64,
    circle_id: u32,
    password: Seq<u8>,
) -> ContractView {
    if betray_outcome(s, betrayer, circle_id, password) is Err {
        s
    } else {
        let creator = s.circles[circle_id].creator;
        bump_was_betrayed(bump_betrayed(betray_records(s, betrayer, circle_id), betrayer), creator)
    }
}

/// What `set_password` returns: the checks run in order — existence, caller
/// is the creator, circle not betrayed.
pub open spec fn set_password_outcome(
    s: ContractView,
    caller: u64,
    circle_id: u32,
) -> Result<bool, Error> {
    match s.circle(circle_id) {
        Option::None => Err(Error::CircleDoesNotExist),
        Option::Some(c) => {
            if c.creator != caller {
                Err(Error::NotOwner)
            } else if c.betrayed {
                Err(Error::CircleBetrayed)
            } else {
                Ok(true)
            }
        },
    }
}

/// How `set_password` changes the state: on success the stored digest is
/// replaced, nothing else moves.
pub open spec fn set_password_applied(
    s: ContractView,
    caller: u64,
    circle_id: u32,
    new_hash: Seq<u8>,
) -> ContractView {
    if set_password_outcome(s, caller, circle_id) is Err {
        s
    } else {
        let c = s.circles[circle_id];
        ContractView {
            circles: s.circles.insert(circle_id, CircleView { password_hash: new_hash, ..c }),
            ..s
        }
    }
}

/// The records of a fresh creation keep the state invariant.
pub proof fn lemma_create_records_wf(
    s: ContractView,
    creator: u64,
    name: Seq<char>,
    password_hash: Seq<u8>,
)
    requires
        s.wf(),
        s.next_circle_id < u32::MAX,
        password_hash.len() == 32,
        !s.created.contains_key(creator),
    ensures
        create_records(s, creator, name, password_hash).wf(),
{
    let id = s.next_circle_id;
    let t = create_records(s, creator, name, password_hash);
    assert(!s.circles.contains_key(id));
    assert(!s.members.contains_key(id));
    assert(!s.all_ids.contains(id)) by {
        if s.all_ids.contains(id) {
            let i = choose|i: int| 0 <= i < s.all_ids.len() && s.all_ids[i] == id;
            assert(s.all_ids[i] < id);
        }
    }
    lemma_push_preserves_no_duplicates(s.all_ids, id);
    assert forall|id2: u32| #[trigger] t.members_of(id2) == (if id2 == id {
        Seq::<u64>::empty()
    } else {
        s.members_of(id2)
    }) by {}
    assert forall|w: u64| #[trigger] t.joined_of(w) == s.joined_of(w) by {}
    assert forall|w: u64, id2: u32| #![trigger t.joined_of(w).contains(id2)]
        #![trigger t.members_of(id2).contains(w)]
        t.joined_of(w).contains(id2) <==> t.members_of(id2).contains(w) by {
        if id2 == id {
            if s.joined_of(w).contains(id2) {
                assert(s.members_of(id2).contains(w));
                assert(s.members.contains_key(id2));
                assert(false);
            }
        }
    }
    assert forall|id2: u32| #[trigger] t.circles.contains_key(id2) implies {
        let c = t.circles[id2];
        &&& c.member_count == crate::state::cap_u32(1 + t.members_of(id2).len() as int)
        &&& (c.betrayer is Some <==> c.betrayed)
        &&& !t.members_of(id2).contains(c.creator)
        &&& t.created.contains_key(c.creator)
        &&& t.created[c.creator] == id2
        &&& c.password_hash.len() == 32
    } by {
        if id2 != id {
            assert(s.circles.contains_key(id2));
            assert(s.circles[id2].creator != creator);
        }
    }
}

/// A successful creation keeps the state invariant.
pub proof fn lemma_create_wf(s: ContractView, creator: u64, name: Seq<char>, password_hash: Seq<u8>)
    requires
        s.wf(),
        s.next_circle_id < u32::MAX,
        password_hash.len() == 32,
    ensures
        create_applied(s, creator, name, password_hash).wf(),
{
    if !s.created.contains_key(creator) {
        lemma_create_records_wf(s, creator, name, password_hash);
        lemma_bump_counters_wf(create_records(s, creator, name, password_hash), creator);
    }
}

/// The records of a first-time join keep the state invariant.
pub proof fn lemma_join_records_wf(s: ContractView, joiner: u64, circle_id: u32)
    requires
        s.wf(),
        s.circles.contains_key(circle_id),
        !s.circles[circle_id].betrayed,
        s.circles[circle_id].creator != joiner,
        !s.joined_of(joiner).contains(circle_id),
        !s.members_of(circle_id).contains(joiner),
    ensures
        join_records(s, joiner, circle_id).wf(),
{
    let t = join_records(s, joiner, circle_id);
    let c = s.circles[circle_id];
    lemma_push_preserves_no_duplicates(s.members_of(circle_id), joiner);
    lemma_push_preserves_no_duplicates(s.joined_of(joiner), circle_id);
    assert forall|id2: u32| #[trigger] t.members_of(id2) == (if id2 == circle_id {
        s.members_of(circle_id).push(joiner)
    } else {
        s.members_of(id2)
    }) by {}
    assert forall|w: u64| #[trigger] t.joined_of(w) == (if w == joiner {
        s.joined_of(joiner).push(circle_id)
    } else {
        s.joined_of(w)
    }) by {}
    assert forall|w: u64, id2: u32| #![trigger t.joined_of(w).contains(id2)]
        #![trigger t.members_of(id2).contains(w)]
        t.joined_of(w).contains(id2) <==> t.members_of(id2).contains(w) by {
        assert(s.joined_of(w).contains(id2) <==> s.members_of(id2).contains(w));
    }
    assert forall|id2: u32| #[trigger] t.circles.contains_key(id2) implies {
        let c2 = t.circles[id2];
        &&& c2.member_count == crate::state::cap_u32(1 + t.members_of(id2).len() as int)
        &&& (c2.betrayer is Some <==> c2.betrayed)
        &&& !t.members_of(id2).contains(c2.creator)
        &&& t.created.contains_key(c2.creator)
        &&& t.created[c2.creator] == id2
        &&& c2.password_hash.len() == 32
    } by {
        assert(s.circles.contains_key(id2));
        if id2 == circle_id {
            assert(t.members_of(id2).len() == s.members_of(id2).len() + 1);
        }
    }
}

/// A join keeps the state invariant.
pub proof fn lemma_join_wf(s: ContractView, joiner: u64, circle_id: u32, password: Seq<u8>)
    requires
        s.wf(),
    ensures
        join_applied(s, joiner, circle_id, password).wf(),
{
    if join_outcome(s, joiner, circle_id, password) is Ok && !s.joined_of(joiner).contains(
        circle_id,
    ) && !s.members_of(circle_id).contains(joiner) {
        lemma_join_records_wf(s, joiner, circle_id);
        lemma_bump_counters_wf(join_records(s, joiner, circle_id), joiner);
    }
}

/// A betrayal keeps the state invariant.
pub proof fn lemma_betray_wf(s: ContractView, betrayer: u64, circle_id: u32, password: Seq<u8>)
    requires
        s.wf(),
    ensures
        betray_applied(s, betrayer, circle_id, password).wf(),
{
    if betray_outcome(s, betrayer, circle_id, password) is Ok {
        let t = betray_records(s, betrayer, circle_id);
        lemma_membership_unchanged(s, t);
        assert(t.wf());
        lemma_bump_counters_wf(t, betrayer);
        lemma_bump_counters_wf(bump_betrayed(t, betrayer), s.circles[circle_id].creator);
    }
}

/// A password rotation keeps the state invariant.
pub proof fn lemma_set_password_wf(s: ContractView, caller: u64, circle_id: u32, new_hash: Seq<u8>)
    requires
        s.wf(),
        new_hash.len() == 32,
    ensures
        set_password_applied(s, caller, circle_id, new_hash).wf(),
{
    if set_password_outcome(s, caller, circle_id) is Ok {
        let t = set_password_applied(s, caller, circle_id, new_hash);
        lemma_membership_unchanged(s, t);
        assert(t.wf());
    }
}

impl Contract {
    /// Judges a password attempt against a stored digest: over 256 bytes of
    /// plaintext is `LongPassword`, a digest mismatch is `WrongPassword`.
    /// This is an exact-equality check of SHA-256 digests.
    pub fn check_password(password: &Vec<u8>, stored_hash: &Vec<u8>) -> (r: Result<bool, Error>)
        ensures
            r == password_check(password@, stored_hash@),
    {
        if password.len() > 256 {
            return Err(Error::LongPassword);
        }
        let digest = sha256(password);
        if !bytes_eq(&digest, stored_hash) {
            return Err(Error::WrongPassword);
        }
        Ok(true)
    }

    /// Creates a new circle owned by `creator`, guarded by the given password
    /// digest. Fails with `AlreadyCreatedCircle` if the creator already owns
    /// one: a wallet may create at most one circle ever. On success the new
    /// circle starts with the creator as its only counted member, an empty
    /// member list, zeroed earnings, and one created circle is counted for
    /// the creator.
    ///
    /// (Pre-authorizing future token pulls from the creator is an external
    /// side effect whose failure is swallowed; it does not touch this state.)
    pub fn create_circle(&mut self, creator: u64, name: String, password_hash: Vec<u8>) -> (r:
        Result<u32, Error>)
        requires
            old(self)@.wf(),
            old(self)@.next_circle_id < u32::MAX,
            password_hash@.len() == 32,
        ensures
            final(self)@.wf(),
            r == create_outcome(old(self)@, creator),
            final(self)@ == create_applied(old(self)@, creator, name@, password_hash@),
    {
        proof {
            lemma_create_wf(old(self)@, creator, name@, password_hash@);
        }
        if self.get_created(creator).is_some() {
            return Err(Error::AlreadyCreatedCircle);
        }
        let ghost name_v = name@;
        let ghost hash_v = password_hash@;
        let circle_id = self.next_circle_id;
        self.put_circle(
            circle_id,
            Circle {
                name,
                password_hash,
                betrayed: false,
                creator,
                member_count: 1,
                betrayer: None,
                total_kale_earned: 0,
            },
        );
        self.put_created(creator, circle_id);
        self.put_members(circle_id, Vec::new());
        self.all_ids.push(circle_id);
        self.next_circle_id = circle_id + 1;
        self.put_circle_earnings(
            circle_id,
            CircleEarnings {
                circle_id,
                total_earned: 0,
                total_harvests: 0,
                average_per_harvest: 0,
                last_harvest_amount: 0,
            },
        );
        proof {
            assert(self@ =~~= create_records(old(self)@, creator, name_v, hash_v));
            lemma_create_records_wf(old(self)@, creator, name_v, hash_v);
        }
        self.update_player_stats_created(creator);
        proof {
            assert(self@ == create_applied(old(self)@, creator, name_v, hash_v));
        }
        Ok(circle_id)
    }

    /// Joins an existing circle with the correct password. Rejoining a circle
    /// one is already a member of succeeds without changing anything. A fresh
    /// join appends the joiner to the circle's member list and the circle to
    /// the joiner's list, grows the member count by one (saturating), and
    /// counts one joined circle.
    pub fn join_circle(&mut self, joiner: u64, circle_id: u32, password: Vec<u8>) -> (r: Result<
        bool,
        Error,
    >)
        requires
            old(self)@.wf(),
        ensures
            final(self)@.wf(),
            r == join_outcome(old(self)@, joiner, circle_id, password@),
            final(self)@ == join_applied(old(self)@, joiner, circle_id, password@),
    {
        proof {
            lemma_join_wf(old(self)@, joiner, circle_id, password@);
        }
        match self.get_circle(circle_id) {
            None => {
                return Err(Error::CircleDoesNotExist);
            },
            Some(c) => {
                if c.betrayed {
                    return Err(Error::CircleBetrayed);
                }
                if c.creator == joiner {
                    return Err(Error::CannotJoinOwnCircle);
                }
                match Self::check_password(&password, &c.password_hash) {
                    Err(e) => {
                        return Err(e);
                    },
                    Ok(_) => {},
                }
            },
        }
        let already_joined = match self.get_joined(joiner) {
            Some(v) => vec_contains_u32(v, circle_id),
            None => false,
        };
        if already_joined {
            return Ok(true);
        }
        let already_member = match self.get_members(circle_id) {
            Some(v) => vec_contains_u64(v, joiner),
            None => false,
        };
        if already_member {
            return Ok(true);
        }
        let mut member_list = self.take_members(circle_id);
        member_list.push(joiner);
        self.put_members(circle_id, member_list);
        let c = self.take_circle(circle_id).unwrap();
        let new_count = c.member_count.saturating_add(1);
        self.put_circle(circle_id, Circle { member_count: new_count, ..c });
        let mut joined_list = self.take_joined(joiner);
        joined_list.push(circle_id);
        self.put_joined(joiner, joined_list);
        proof {
            assert(self@ =~~= join_records(old(self)@, joiner, circle_id));
            lemma_join_records_wf(old(self)@, joiner, circle_id);
        }
        self.update_player_stats_joined(joiner);
        proof {
            assert(self@ == join_applied(old(self)@, joiner, circle_id, password@));
        }
        Ok(true)
    }

    /// Betrays a circle with the correct password: a terminal, one-time
    /// action. The creator cannot betray their own circle (`NotOwner`). On
    /// success the circle is marked betrayed, the betrayer is recorded, one
    /// betrayal is counted for the betrayer and one suffered betrayal for the
    /// creator. No further joins, betrayals, or password changes are possible
    /// afterwards.
    pub fn betray_circle(&mut self, betrayer: u64, circle_id: u32, password: Vec<u8>) -> (r: Result<
        bool,
        Error,
    >)
        requires
            old(self)@.wf(),
        ensures
            final(self)@.wf(),
            r == betray_outcome(old(self)@, betrayer, circle_id, password@),
            final(self)@ == betray_applied(old(self)@, betrayer, circle_id, password@),
    {
        proof {
            lemma_betray_wf(old(self)@, betrayer, circle_id, password@);
        }
        match self.get_circle(circle_id) {
            None => {
                return Err(Error::CircleDoesNotExist);
            },
            Some(c) => {
                if c.betrayed {
                    return Err(Error::CircleBetrayed);
                }
                if c.creator == betrayer {
                    return Err(Error::NotOwner);
                }
                match Self::check_password(&password, &c.password_hash) {
                    Err(e) => {
                        return Err(e);
                    },
                    Ok(_) => {},
                }
            },
        }
        let c = self.take_circle(circle_id).unwrap();
        let creator = c.creator;
        self.put_circle(circle_id, Circle { betrayed: true, betrayer: Some(betrayer), ..c });
        proof {
            assert(self@ =~~= betray_records(old(self)@, betrayer, circle_id));
            lemma_membership_unchanged(old(self)@, self@);
            assert(self@.wf());
            lemma_bump_counters_wf(self@, betrayer);
        }
        self.update_player_stats_betrayed(betrayer);
        proof {
            lemma_bump_counters_wf(self@, creator);
        }
        self.update_player_stats_was_betrayed(creator);
        proof {
            assert(self@ == betray_applied(old(self)@, betrayer, circle_id, password@));
        }
        Ok(true)
    }

    /// Replaces a circle's stored password digest. Only the creator may do
    /// this, and not after a betrayal; the old password is not re-verified.
    pub fn set_password(&mut self, caller: u64, circle_id: u32, password_hash: Vec<u8>) -> (r:
        Result<bool, Error>)
        requires
            old(self)@.wf(),
            password_hash@.len() == 32,
        ensures
            final(self)@.wf(),
            r == set_password_outcome(old(self)@, caller, circle_id),
            final(self)@ == set_password_applied(old(self)@, caller, circle_id, password_hash@),
    {
        proof {
            lemma_set_password_wf(old(self)@, caller, circle_id, password_hash@);
        }
        match self.get_circle(circle_id) {
            None => {
                return Err(Error::CircleDoesNotExist);
            },
            Some(c) => {
                if c.creator != caller {
                    return Err(Error::NotOwner);
                }
                if c.betrayed {
                    return Err(Error::CircleBetrayed);
                }
            },
        }
        let ghost hash_v = password_hash@;
        let c = self.take_circle(circle_id).unwrap();
        self.put_circle(circle_id, Circle { password_hash, ..c });
        proof {
            assert(self@ =~~= set_password_applied(old(self)@, caller, circle_id, hash_v));
        }
        Ok(true)
    }
}

} // verus!
