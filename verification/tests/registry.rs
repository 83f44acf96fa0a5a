use kale_circles::{Contract, Error};
use sha2::Digest;

fn digest_of(password: &[u8]) -> Vec<u8> {
    sha2::Sha256::digest(password).to_vec()
}

#[test]
fn create_allocates_sequential_ids() {
    let mut c = Contract::new();
    let id1 = c.create_circle(1, "alpha".to_string(), digest_of(b"pw1")).unwrap();
    let id2 = c.create_circle(2, "beta".to_string(), digest_of(b"pw2")).unwrap();
    assert_eq!(id1, 1);
    assert_eq!(id2, 2);
    let all = c.get_all_circles();
    assert_eq!(all.len(), 2);
    assert_eq!(all[0].circle_id, 1);
    assert_eq!(all[0].name, "alpha".to_string());
    assert_eq!(all[0].creator, 1);
    assert_eq!(all[0].member_count, 1);
    assert!(!all[0].betrayed);
}

#[test]
fn second_create_fails_already_created() {
    let mut c = Contract::new();
    c.create_circle(1, "alpha".to_string(), digest_of(b"pw")).unwrap();
    let r = c.create_circle(1, "other".to_string(), digest_of(b"pw2"));
    assert_eq!(r, Err(Error::AlreadyCreatedCircle));
    assert_eq!(c.get_all_circles().len(), 1);
}

#[test]
fn get_owner_circle_reports_created_circle() {
    let mut c = Contract::new();
    let id = c.create_circle(7, "mine".to_string(), digest_of(b"pw")).unwrap();
    let (name, betrayed, creator, member_count, got_id, earned) =
        c.get_owner_circle(7).unwrap();
    assert_eq!(name, "mine".to_string());
    assert!(!betrayed);
    assert_eq!(creator, 7);
    assert_eq!(member_count, 1);
    assert_eq!(got_id, id);
    assert_eq!(earned, 0);
    assert!(c.get_owner_circle(8).is_none());
}

#[test]
fn get_circle_info_fields() {
    let mut c = Contract::new();
    let id = c.create_circle(3, "gamma".to_string(), digest_of(b"s"))
        .unwrap();
    let (name, betrayed, creator, member_count, earned) = c.get_circle_info(id).unwrap();
    assert_eq!(name, "gamma".to_string());
    assert!(!betrayed);
    assert_eq!(creator, 3);
    assert_eq!(member_count, 1);
    assert_eq!(earned, 0);
    assert!(c.get_circle_info(99).is_none());
}

#[test]
fn join_with_correct_password_adds_member() {
    let mut c = Contract::new();
    let id = c.create_circle(1, "alpha".to_string(), digest_of(b"secret")).unwrap();
    assert_eq!(c.join_circle(2, id, b"secret".to_vec()), Ok(true));
    let (_, _, _, member_count, _) = c.get_circle_info(id).unwrap();
    assert_eq!(member_count, 2);
    assert_eq!(c.get_circle_members(id), vec![2u64]);
    assert_eq!(c.get_wallet_circles(2), vec![id]);
    assert!(c.is_in_circle(2));
    assert!(c.is_in_specific_circle(2, id));
    assert!(!c.is_in_circle(9));
    let stats = c.get_player_stats(2).unwrap();
    assert_eq!(stats.circles_joined, 1);
}

#[test]
fn join_is_idempotent() {
    let mut c = Contract::new();
    let id = c.create_circle(1, "alpha".to_string(), digest_of(b"secret")).unwrap();
    assert_eq!(c.join_circle(2, id, b"secret".to_vec()), Ok(true));
    assert_eq!(c.join_circle(2, id, b"secret".to_vec()), Ok(true));
    let (_, _, _, member_count, _) = c.get_circle_info(id).unwrap();
    assert_eq!(member_count, 2);
    assert_eq!(c.get_circle_members(id), vec![2u64]);
    assert_eq!(c.get_wallet_circles(2), vec![id]);
    assert_eq!(c.get_player_stats(2).unwrap().circles_joined, 1);
}

#[test]
fn join_wrong_password_fails_without_mutation() {
    let mut c = Contract::new();
    let id = c.create_circle(1, "alpha".to_string(), digest_of(b"secret")).unwrap();
    assert_eq!(c.join_circle(2, id, b"wrong".to_vec()), Err(Error::WrongPassword));
    let (_, _, _, member_count, _) = c.get_circle_info(id).unwrap();
    assert_eq!(member_count, 1);
    assert!(c.get_circle_members(id).is_empty());
    assert!(c.get_wallet_circles(2).is_empty());
    assert!(c.get_player_stats(2).is_none());
}

#[test]
fn join_own_circle_rejected() {
    let mut c = Contract::new();
    let id = c.create_circle(1, "alpha".to_string(), digest_of(b"secret")).unwrap();
    assert_eq!(c.join_circle(1, id, b"secret".to_vec()), Err(Error::CannotJoinOwnCircle));
}

#[test]
fn join_missing_circle_rejected() {
    let mut c = Contract::new();
    assert_eq!(c.join_circle(2, 5, b"pw".to_vec()), Err(Error::CircleDoesNotExist));
}

#[test]
fn long_password_rejected() {
    let mut c = Contract::new();
    let id = c.create_circle(1, "alpha".to_string(), digest_of(b"secret")).unwrap();
    let long = vec![b'x'; 257];
    assert_eq!(c.join_circle(2, id, long.clone()), Err(Error::LongPassword));
    assert_eq!(c.betray_circle(2, id, long), Err(Error::LongPassword));
    let max = vec![b'x'; 256];
    assert_eq!(c.join_circle(2, id, max), Err(Error::WrongPassword));
}

#[test]
fn check_password_compares_real_digests() {
    let stored = digest_of(b"open sesame");
    assert_eq!(Contract::check_password(&b"open sesame".to_vec(), &stored), Ok(true));
    assert_eq!(
        Contract::check_password(&b"open Sesame".to_vec(), &stored),
        Err(Error::WrongPassword)
    );
    // the digest of a text is never the text itself
    assert_eq!(
        Contract::check_password(&stored, &stored),
        Err(Error::WrongPassword)
    );
}

#[test]
fn betray_marks_circle_and_records_betrayer() {
    let mut c = Contract::new();
    let id = c.create_circle(1, "alpha".to_string(), digest_of(b"secret")).unwrap();
    c.join_circle(2, id, b"secret".to_vec()).unwrap();
    assert_eq!(c.betray_circle(2, id, b"secret".to_vec()), Ok(true));
    let (_, betrayed, _, _, _) = c.get_circle_info(id).unwrap();
    assert!(betrayed);
    assert_eq!(c.circles.get(&(id as u64)).unwrap().betrayer, Some(2));
    assert_eq!(c.get_player_stats(2).unwrap().circles_betrayed, 1);
    assert_eq!(c.get_player_stats(1).unwrap().times_betrayed, 1);
}

#[test]
fn creator_cannot_betray_own_circle() {
    let mut c = Contract::new();
    let id = c.create_circle(1, "alpha".to_string(), digest_of(b"secret")).unwrap();
    assert_eq!(c.betray_circle(1, id, b"secret".to_vec()), Err(Error::NotOwner));
}

#[test]
fn betrayed_circle_is_terminal() {
    let mut c = Contract::new();
    let id = c.create_circle(1, "alpha".to_string(), digest_of(b"secret")).unwrap();
    c.join_circle(2, id, b"secret".to_vec()).unwrap();
    c.betray_circle(2, id, b"secret".to_vec()).unwrap();
    assert_eq!(c.join_circle(3, id, b"secret".to_vec()), Err(Error::CircleBetrayed));
    assert_eq!(c.betray_circle(3, id, b"secret".to_vec()), Err(Error::CircleBetrayed));
    assert_eq!(c.set_password(1, id, digest_of(b"new")), Err(Error::CircleBetrayed));
    // the betrayed check comes before the password check ...
    assert_eq!(c.join_circle(3, id, b"wrong".to_vec()), Err(Error::CircleBetrayed));
    // ... while for a password change the ownership check comes first
    assert_eq!(c.set_password(3, id, digest_of(b"new")), Err(Error::NotOwner));
    let (_, _, _, member_count, _) = c.get_circle_info(id).unwrap();
    assert_eq!(member_count, 2);
}

#[test]
fn betray_wrong_password_no_mutation() {
    let mut c = Contract::new();
    let id = c.create_circle(1, "alpha".to_string(), digest_of(b"secret")).unwrap();
    c.join_circle(2, id, b"secret".to_vec()).unwrap();
    assert_eq!(c.betray_circle(2, id, b"nope".to_vec()), Err(Error::WrongPassword));
    let (_, betrayed, _, _, _) = c.get_circle_info(id).unwrap();
    assert!(!betrayed);
    assert_eq!(c.get_player_stats(2).unwrap().circles_betrayed, 0);
}

#[test]
fn set_password_requires_creator() {
    let mut c = Contract::new();
    let id = c.create_circle(1, "alpha".to_string(), digest_of(b"secret")).unwrap();
    assert_eq!(c.set_password(2, id, digest_of(b"new")), Err(Error::NotOwner));
    assert_eq!(c.set_password(1, 9, digest_of(b"new")), Err(Error::CircleDoesNotExist));
}

#[test]
fn set_password_rotates_the_digest() {
    let mut c = Contract::new();
    let id = c.create_circle(1, "alpha".to_string(), digest_of(b"old")).unwrap();
    assert_eq!(c.set_password(1, id, digest_of(b"new")), Ok(true));
    assert_eq!(c.join_circle(2, id, b"old".to_vec()), Err(Error::WrongPassword));
    assert_eq!(c.join_circle(2, id, b"new".to_vec()), Ok(true));
}

#[test]
fn hello_greets() {
    let v = Contract::hello("world".to_string());
    assert_eq!(v, vec!["Hello".to_string(), "world".to_string()]);
}
