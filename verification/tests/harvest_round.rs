use kale_circles::{CircleRoundEvents, Contract, Error, HarvestResult, MemberYieldEvent};
use sha2::Digest;

fn digest_of(password: &[u8]) -> Vec<u8> {
    sha2::Sha256::digest(password).to_vec()
}

fn yield_event(before: u128, after: u128) -> MemberYieldEvent {
    MemberYieldEvent {
        balance_before: Some(before),
        harvest_ok: true,
        balance_after: Some(after),
        pull_ok: true,
    }
}

fn all_ok(member_events: Vec<MemberYieldEvent>) -> CircleRoundEvents {
    let n = member_events.len();
    CircleRoundEvents { member_events, base_ok: vec![true; n], remainder_ok: true, betrayer_ok: true }
}

#[test]
fn member_amount_is_balance_delta() {
    assert_eq!(Contract::safe_harvest_member(&yield_event(40, 100)), Ok(60));
    assert_eq!(Contract::safe_harvest_member(&yield_event(100, 40)), Ok(0));
    assert_eq!(Contract::safe_harvest_member(&yield_event(7, 7)), Ok(0));
}

#[test]
fn member_amount_failures() {
    let mut ev = yield_event(0, 50);
    ev.harvest_ok = false;
    assert_eq!(Contract::safe_harvest_member(&ev), Err(Error::HarvestFailed));
    let mut ev = yield_event(0, 50);
    ev.balance_before = None;
    assert_eq!(Contract::safe_harvest_member(&ev), Err(Error::TokenTransferFailed));
    let mut ev = yield_event(0, 50);
    ev.balance_after = None;
    assert_eq!(Contract::safe_harvest_member(&ev), Err(Error::TokenTransferFailed));
}

#[test]
fn pool_of_100_over_three_members_pays_33_each_plus_remainder() {
    let mut c = Contract::new();
    let id = c.create_circle(1, "alpha".to_string(), digest_of(b"pw")).unwrap();
    for w in [2u64, 3, 4] {
        c.join_circle(w, id, b"pw".to_vec()).unwrap();
    }
    // one member's harvest yields the whole pool of 100
    let events = all_ok(vec![yield_event(0, 100), yield_event(5, 5), yield_event(9, 9)]);
    let distributed = c.process_circle_harvest(id, &events).unwrap();
    assert_eq!(distributed, 100);
    // base = 33 to each member, remainder = 1 extra to the first member
    assert_eq!(c.get_player_earnings(2).unwrap().total_kale_earned, 34);
    assert_eq!(c.get_player_earnings(3).unwrap().total_kale_earned, 33);
    assert_eq!(c.get_player_earnings(4).unwrap().total_kale_earned, 33);
    assert_eq!(c.get_player_earnings(2).unwrap().kale_earned_from_join_circles, 34);
    // the creator is not a member and receives nothing
    assert!(c.get_player_earnings(1).is_none());
    // the circle's cumulative total grew by what was actually paid
    let (_, _, _, _, earned) = c.get_circle_info(id).unwrap();
    assert_eq!(earned, 100);
}

#[test]
fn failed_base_transfer_is_forfeited() {
    let mut c = Contract::new();
    let id = c.create_circle(1, "alpha".to_string(), digest_of(b"pw")).unwrap();
    c.join_circle(2, id, b"pw".to_vec()).unwrap();
    c.join_circle(3, id, b"pw".to_vec()).unwrap();
    let mut events = all_ok(vec![yield_event(0, 10), yield_event(0, 0)]);
    events.base_ok = vec![true, false];
    let distributed = c.process_circle_harvest(id, &events).unwrap();
    // pool 10, base 5: the second member's transfer failed and is forfeited
    assert_eq!(distributed, 5);
    assert_eq!(c.get_player_earnings(2).unwrap().total_kale_earned, 5);
    assert!(c.get_player_earnings(3).is_none());
}

#[test]
fn betrayed_pool_goes_entirely_to_betrayer() {
    // Creator A creates "alpha"; B joins with the correct password, then
    // betrays; a pooled harvest of 100 now pays 100 entirely to B as
    // betrayal earnings while A's own-circle earnings stay 0.
    let mut c = Contract::new();
    let a = 10u64;
    let b = 20u64;
    let id = c.create_circle(a, "alpha".to_string(), digest_of(b"alpha pw")).unwrap();
    assert_eq!(c.join_circle(b, id, b"alpha pw".to_vec()), Ok(true));
    let (_, _, _, member_count, _) = c.get_circle_info(id).unwrap();
    assert_eq!(member_count, 2);
    assert_eq!(c.get_wallet_circles(b), vec![id]);
    assert_eq!(c.betray_circle(b, id, b"alpha pw".to_vec()), Ok(true));
    let (_, betrayed, _, _, _) = c.get_circle_info(id).unwrap();
    assert!(betrayed);
    assert_eq!(c.circles.get(&(id as u64)).unwrap().betrayer, Some(b));

    let events = all_ok(vec![yield_event(0, 100)]);
    let distributed = c.process_circle_harvest(id, &events).unwrap();
    assert_eq!(distributed, 100);
    let be = c.get_player_earnings(b).unwrap();
    assert_eq!(be.kale_earned_from_betrayals, 100);
    assert_eq!(be.total_kale_earned, 100);
    assert!(c.get_player_earnings(a).is_none());
}

#[test]
fn betrayer_payout_failure_fails_that_circle_only() {
    let mut c = Contract::new();
    let id = c.create_circle(1, "alpha".to_string(), digest_of(b"pw")).unwrap();
    c.join_circle(2, id, b"pw".to_vec()).unwrap();
    c.betray_circle(2, id, b"pw".to_vec()).unwrap();
    let mut events = all_ok(vec![yield_event(0, 30)]);
    events.betrayer_ok = false;
    assert_eq!(c.process_circle_harvest(id, &events), Err(Error::TokenTransferFailed));
    assert!(c.get_player_earnings(2).is_none());
}

#[test]
fn round_isolates_missing_circle_and_distributes_the_rest() {
    // circle X is missing from storage while circle Y harvests 50
    let mut c = Contract::new();
    let x = c.create_circle(1, "x".to_string(), digest_of(b"px")).unwrap();
    let y = c.create_circle(2, "y".to_string(), digest_of(b"py")).unwrap();
    c.join_circle(3, y, b"py".to_vec()).unwrap();
    c.circles.remove(&(x as u64));
    let events = vec![
        CircleRoundEvents {
            member_events: vec![],
            base_ok: vec![],
            remainder_ok: true,
            betrayer_ok: true,
        },
        all_ok(vec![yield_event(0, 50)]),
    ];
    let report = c.harvest_and_distribute_all(&events);
    assert_eq!(
        report,
        HarvestResult { total_distributed: 50, successful_circles: 1, failed_harvests: 1 }
    );
    assert_eq!(c.get_total_kale_earned(), 50);
    assert_eq!(c.get_player_earnings(3).unwrap().total_kale_earned, 50);
}

#[test]
fn round_skips_memberless_circles_silently() {
    let mut c = Contract::new();
    c.create_circle(1, "solo".to_string(), digest_of(b"pw")).unwrap();
    let events = vec![CircleRoundEvents {
        member_events: vec![],
        base_ok: vec![],
        remainder_ok: true,
        betrayer_ok: true,
    }];
    let report = c.harvest_and_distribute_all(&events);
    assert_eq!(
        report,
        HarvestResult { total_distributed: 0, successful_circles: 0, failed_harvests: 0 }
    );
    assert_eq!(c.get_total_kale_earned(), 0);
}

#[test]
fn zero_yield_is_not_a_successful_circle() {
    let mut c = Contract::new();
    let id = c.create_circle(1, "alpha".to_string(), digest_of(b"pw")).unwrap();
    c.join_circle(2, id, b"pw".to_vec()).unwrap();
    let events = vec![all_ok(vec![yield_event(5, 5)])];
    let report = c.harvest_and_distribute_all(&events);
    assert_eq!(
        report,
        HarvestResult { total_distributed: 0, successful_circles: 0, failed_harvests: 0 }
    );
}

#[test]
fn failed_member_harvest_skips_only_that_member() {
    let mut c = Contract::new();
    let id = c.create_circle(1, "alpha".to_string(), digest_of(b"pw")).unwrap();
    c.join_circle(2, id, b"pw".to_vec()).unwrap();
    c.join_circle(3, id, b"pw".to_vec()).unwrap();
    let mut failed = yield_event(0, 40);
    failed.harvest_ok = false;
    let events = all_ok(vec![failed, yield_event(0, 9)]);
    // only the second member's 9 tokens reach the pool; base = 4, rem = 1
    let distributed = c.process_circle_harvest(id, &events).unwrap();
    assert_eq!(distributed, 9);
    assert_eq!(c.get_player_earnings(2).unwrap().total_kale_earned, 5);
    assert_eq!(c.get_player_earnings(3).unwrap().total_kale_earned, 4);
}

#[test]
fn unpulled_amount_is_forfeited() {
    let mut c = Contract::new();
    let id = c.create_circle(1, "alpha".to_string(), digest_of(b"pw")).unwrap();
    c.join_circle(2, id, b"pw".to_vec()).unwrap();
    let mut ev = yield_event(0, 25);
    ev.pull_ok = false;
    let events = all_ok(vec![ev]);
    assert_eq!(c.process_circle_harvest(id, &events), Ok(0));
    assert!(c.get_player_earnings(2).is_none());
}

#[test]
fn circle_earnings_record_tracks_rounds() {
    let mut c = Contract::new();
    let id = c.create_circle(1, "alpha".to_string(), digest_of(b"pw")).unwrap();
    c.join_circle(2, id, b"pw".to_vec()).unwrap();
    let report = c.harvest_and_distribute_all(&vec![all_ok(vec![yield_event(0, 10)])]);
    assert_eq!(report.successful_circles, 1);
    let report = c.harvest_and_distribute_all(&vec![all_ok(vec![yield_event(10, 15)])]);
    assert_eq!(report.total_distributed, 5);
    let e = c.get_circle_earnings(id).unwrap();
    assert_eq!(e.circle_id, id);
    assert_eq!(e.total_earned, 15);
    assert_eq!(e.total_harvests, 2);
    assert_eq!(e.average_per_harvest, 7);
    assert_eq!(e.last_harvest_amount, 5);
    assert_eq!(c.get_total_kale_earned(), 15);
    let tops = c.get_top_earning_circles(10);
    assert_eq!(tops.len(), 1);
    assert_eq!(tops[0].total_earned, 15);
}
