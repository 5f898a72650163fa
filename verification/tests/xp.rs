use botcore::db::Database;
use botcore::ids::UserId;
use botcore::state::DBEvent;
use botcore::user::DBUser;
use botcore::util::{anti_spam_count, calculate_length_to_xp};

#[test]
fn xp_curve_boundary_values() {
    // xp(0) = 0; xp(15) = 5; the curve saturates at 15 from 26 upward.
    assert_eq!(calculate_length_to_xp(&0), 0);
    assert_eq!(calculate_length_to_xp(&15), 5);
    assert_eq!(calculate_length_to_xp(&25), 14);
    assert_eq!(calculate_length_to_xp(&26), 15);
    assert_eq!(calculate_length_to_xp(&100), 15);
    assert_eq!(calculate_length_to_xp(&usize::MAX), 15);
}

#[test]
fn xp_curve_is_monotonic_over_small_inputs() {
    let mut last = 0u64;
    for len in 0usize..60 {
        let xp = calculate_length_to_xp(&len);
        assert!(xp >= last, "curve dipped at {}", len);
        assert!(xp <= 15);
        last = xp;
    }
}

#[test]
fn gain_xp_carry_scenario() {
    // Level 1 with 0 XP; required(1) = 100. Gaining 250 XP carries:
    // 250 >= 100 -> level 2, 150 left; required(2) = 102; 150 >= 102 ->
    // level 3, 48 left; required(3) = 104; 48 < 104 -> stop.
    let mut user = DBUser::default();
    assert_eq!(user.xp_until_next_level, 100);
    user.gain_xp(250);
    assert_eq!(user.level, 3);
    assert_eq!(user.this_levels_xp, 48);
    assert_eq!(user.xp_until_next_level, 104);
}

#[test]
fn gain_xp_zero_is_a_no_op() {
    let mut user = DBUser::default();
    user.gain_xp(0);
    assert_eq!(user.level, 1);
    assert_eq!(user.this_levels_xp, 0);
    assert_eq!(user.xp_until_next_level, 100);
}

#[test]
fn level_is_monotonic_across_messages() {
    let mut db = Database::new();
    let mut last_level = 1u64;
    for i in 0..30 {
        // Alternate senders so the anti-spam marker never suppresses a gain.
        db.add(DBEvent::UserSendMessage { user: UserId(1), length: 30 });
        db.add(DBEvent::UserSendMessage { user: UserId(2), length: 30 + i });
        let u = db.state().get_user_or_default(&UserId(1));
        assert!(u.level >= last_level);
        assert!(u.this_levels_xp < u.xp_until_next_level);
        last_level = u.level;
    }
}

#[test]
fn anti_spam_dedup_suppresses_second_message() {
    // Two consecutive messages from the same user: no second XP gain.
    let mut db = Database::new();
    db.add(DBEvent::UserSendMessage { user: UserId(1), length: 30 });
    let xp_after_first = db.state().get_user_or_default(&UserId(1)).this_levels_xp;
    assert_eq!(xp_after_first, 15);
    db.add(DBEvent::UserSendMessage { user: UserId(1), length: 30 });
    let xp_after_second = db.state().get_user_or_default(&UserId(1)).this_levels_xp;
    assert_eq!(xp_after_second, xp_after_first);
}

#[test]
fn anti_spam_reenabled_by_other_user() {
    // A message from a different user in between re-enables the gain.
    let mut db = Database::new();
    db.add(DBEvent::UserSendMessage { user: UserId(1), length: 30 });
    db.add(DBEvent::UserSendMessage { user: UserId(2), length: 30 });
    db.add(DBEvent::UserSendMessage { user: UserId(1), length: 30 });
    let u = db.state().get_user_or_default(&UserId(1));
    assert_eq!(u.this_levels_xp, 30);
}

#[test]
fn anti_spam_count_distinct_alphabetic() {
    assert_eq!(anti_spam_count(""), 0);
    assert_eq!(anti_spam_count("aaaaaaaaaa"), 1);
    assert_eq!(anti_spam_count("abcabcabc"), 3);
    assert_eq!(anti_spam_count("a1b2c3!?"), 3);
    assert_eq!(anti_spam_count("Hello world"), 7);
}

#[test]
fn message_xp_uses_curve_of_metric() {
    let mut db = Database::new();
    db.add(DBEvent::UserSendMessage { user: UserId(7), length: 15 });
    let u = db.state().get_user_or_default(&UserId(7));
    assert_eq!(u.this_levels_xp, 5);
    assert_eq!(u.level, 1);
}
