use kale_circles::{Contract, MemberYieldEvent, CircleRoundEvents};
use sha2::Digest;

fn digest_of(password: &[u8]) -> Vec<u8> {
    sha2::Sha256::digest(password).to_vec()
}

#[test]
fn scoreboard_derives_trust_score_and_ratios() {
    let mut c = Contract::new();
    let a = 1u64;
    let b = 2u64;
    let id1 = c.create_circle(a, "one".to_string(), digest_of(b"p1")).unwrap();
    let id2 = c.create_circle(3, "two".to_string(), digest_of(b"p2")).unwrap();
    c.join_circle(b, id1, b"p1".to_vec()).unwrap();
    c.join_circle(b, id2, b"p2".to_vec()).unwrap();
    c.betray_circle(b, id2, b"p2".to_vec()).unwrap();

    let board = c.get_scoreboard();
    // players in first-touch order: a, 3, b
    assert_eq!(board.len(), 3);
    let row_a = board.iter().find(|e| e.address == a).unwrap();
    assert_eq!(row_a.circles_created, 1);
    assert_eq!(row_a.circles_joined, 0);
    assert_eq!(row_a.trust_score, 0);
    assert_eq!(row_a.betrayal_ratio, 0);
    assert_eq!(row_a.kale_per_circle, 0);
    let row_b = board.iter().find(|e| e.address == b).unwrap();
    assert_eq!(row_b.circles_joined, 2);
    assert_eq!(row_b.circles_betrayed, 1);
    assert_eq!(row_b.trust_score, 1);
    assert_eq!(row_b.betrayal_ratio, 50);
    let row_three = board.iter().find(|e| e.address == 3).unwrap();
    assert_eq!(row_three.times_betrayed, 1);
}

#[test]
fn trust_score_can_be_negative() {
    // a wallet that never joined but betrays with a known password
    let mut c = Contract::new();
    let id = c.create_circle(1, "one".to_string(), digest_of(b"p")).unwrap();
    c.join_circle(2, id, b"p".to_vec()).unwrap();
    c.betray_circle(3, id, b"p".to_vec()).unwrap();
    let board = c.get_scoreboard();
    let row = board.iter().find(|e| e.address == 3).unwrap();
    assert_eq!(row.circles_joined, 0);
    assert_eq!(row.circles_betrayed, 1);
    assert_eq!(row.trust_score, -1);
    assert_eq!(row.betrayal_ratio, 0);
}

#[test]
fn kale_per_circle_is_truncated_quotient() {
    let mut c = Contract::new();
    let id = c.create_circle(1, "one".to_string(), digest_of(b"p")).unwrap();
    c.join_circle(2, id, b"p".to_vec()).unwrap();
    let events = vec![CircleRoundEvents {
        member_events: vec![MemberYieldEvent {
            balance_before: Some(0),
            harvest_ok: true,
            balance_after: Some(7),
            pull_ok: true,
        }],
        base_ok: vec![true],
        remainder_ok: true,
        betrayer_ok: true,
    }];
    c.harvest_and_distribute_all(&events);
    let board = c.get_scoreboard();
    let row = board.iter().find(|e| e.address == 2).unwrap();
    assert_eq!(row.total_kale_earned, 7);
    assert_eq!(row.circles_joined, 1);
    assert_eq!(row.kale_per_circle, 7);
}

#[test]
fn total_stats_sums_over_players() {
    let mut c = Contract::new();
    let id1 = c.create_circle(1, "one".to_string(), digest_of(b"p1")).unwrap();
    let id2 = c.create_circle(2, "two".to_string(), digest_of(b"p2")).unwrap();
    c.join_circle(3, id1, b"p1".to_vec()).unwrap();
    c.join_circle(3, id2, b"p2".to_vec()).unwrap();
    c.join_circle(4, id1, b"p1".to_vec()).unwrap();
    c.betray_circle(4, id1, b"p1".to_vec()).unwrap();
    let (players, created, joined, betrayals, kale) = c.get_total_stats();
    assert_eq!(players, 4);
    assert_eq!(created, 2);
    assert_eq!(joined, 3);
    assert_eq!(betrayals, 1);
    assert_eq!(kale, 0);
}

#[test]
fn all_circles_listing_skips_missing_records() {
    let mut c = Contract::new();
    let id1 = c.create_circle(1, "one".to_string(), digest_of(b"p1")).unwrap();
    let id2 = c.create_circle(2, "two".to_string(), digest_of(b"p2")).unwrap();
    c.circles.remove(&(id1 as u64));
    let infos = c.get_all_circles();
    assert_eq!(infos.len(), 1);
    assert_eq!(infos[0].circle_id, id2);
    assert_eq!(infos[0].name, "two".to_string());
}
