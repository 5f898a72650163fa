use botcore::battle::{Living, LivingBuilder, LivingBuilderError};
use botcore::db::Database;
use botcore::ids::{is_admin, UserId, ADMIN_USER};
use botcore::items::{item_counts, InventoryItem, Rarity};
use botcore::rng::Chance;
use botcore::state::{DBEvent, DBState, SideChannel};
use botcore::user::{DBUser, DBUserError};

fn counter(user: u64) -> DBEvent {
    DBEvent::Counter { user: UserId(user) }
}

#[test]
fn counter_scenario_three_adds() {
    // Fresh database; two counts by one user and one by another.
    let mut db = Database::new();
    assert!(matches!(db.add(counter(42)), SideChannel::Nothing));
    assert!(matches!(db.add(counter(42)), SideChannel::Nothing));
    assert!(matches!(db.add(counter(7)), SideChannel::Nothing));
    assert_eq!(db.state().counter, 3);
    assert_eq!(db.state().people_who_counted.len(), 2);
    assert!(db.state().people_who_counted.contains(&UserId(42)));
    assert!(db.state().people_who_counted.contains(&UserId(7)));
    assert_eq!(db.log().len(), 3);
}

#[test]
fn append_only_log_grows_by_one() {
    let mut db = Database::new();
    assert_eq!(db.log().len(), 0);
    db.add(counter(1));
    assert_eq!(db.log().len(), 1);
    assert!(matches!(db.log()[0], DBEvent::Counter { user: UserId(1) }));
    db.add(counter(2));
    assert_eq!(db.log().len(), 2);
    assert!(matches!(db.log()[0], DBEvent::Counter { user: UserId(1) }));
    assert!(matches!(db.log()[1], DBEvent::Counter { user: UserId(2) }));
}

#[test]
fn replay_determinism() {
    let events = vec![
        counter(42),
        DBEvent::CoinFlip { chance: Chance::from_raw(0) },
        DBEvent::UserSendMessage { user: UserId(5), length: 30 },
        DBEvent::AdminGive { user: UserId(5), item: InventoryItem::Stick },
        DBEvent::AdminBurn { user: UserId(5), item: InventoryItem::Stick },
    ];
    let copy: Vec<DBEvent> = events.iter().map(|e| e.duplicate()).collect();
    let db1 = Database::replay(events).expect("replay stays in bounds");
    let db2 = Database::replay(copy).expect("replay stays in bounds");
    assert_eq!(format!("{:?}", db1.state()), format!("{:?}", db2.state()));
}

#[test]
fn replay_matches_incremental_adds() {
    let mut db = Database::new();
    db.add(counter(1));
    db.add(DBEvent::UserSendMessage { user: UserId(9), length: 15 });
    let events: Vec<DBEvent> = db.log().iter().map(|e| e.duplicate()).collect();
    let replayed = Database::replay(events).expect("replay stays in bounds");
    assert_eq!(format!("{:?}", db.state()), format!("{:?}", replayed.state()));
}

#[test]
fn coinflip_success_increments_streak() {
    let mut db = Database::new();
    let side = db.add(DBEvent::CoinFlip { chance: Chance::from_raw(0) });
    assert!(matches!(side, SideChannel::CoinFlip { success: true }));
    assert_eq!(db.state().flips_in_a_row, 1);
    let side = db.add(DBEvent::CoinFlip { chance: Chance::from_raw(100) });
    assert!(matches!(side, SideChannel::CoinFlip { success: true }));
    assert_eq!(db.state().flips_in_a_row, 2);
}

#[test]
fn coinflip_failure_resets_streak() {
    let mut db = Database::new();
    db.add(DBEvent::CoinFlip { chance: Chance::from_raw(0) });
    db.add(DBEvent::CoinFlip { chance: Chance::from_raw(0) });
    assert_eq!(db.state().flips_in_a_row, 2);
    let side = db.add(DBEvent::CoinFlip { chance: Chance::from_raw(u32::MAX) });
    assert!(matches!(side, SideChannel::CoinFlip { success: false }));
    assert_eq!(db.state().flips_in_a_row, 0);
}

#[test]
fn burn_without_item_fails_and_leaves_state() {
    // Burn precondition: an item count of zero gives the failure side channel
    // and the state is unchanged — in particular, no record is created for a
    // user the state has never seen.
    let mut db = Database::new();
    db.add(counter(9));
    let before = format!("{:?}", db.state());
    let side = db.add(DBEvent::AdminBurn { user: UserId(3), item: InventoryItem::Gun });
    match side {
        SideChannel::AdminBurnFail { user_error } => match user_error {
            DBUserError::UserDoesNotHaveItem(item) => assert_eq!(item, InventoryItem::Gun),
            other => panic!("wrong error: {:?}", other),
        },
        other => panic!("expected a burn failure, got {:?}", other),
    }
    assert_eq!(before, format!("{:?}", db.state()));
    assert!(db.state().users.iter().all(|p| p.0 != UserId(3)));
    // A user with a record but without the item is likewise left untouched.
    db.add(DBEvent::AdminGive { user: UserId(3), item: InventoryItem::Stick });
    let before = format!("{:?}", db.state());
    let side = db.add(DBEvent::AdminBurn { user: UserId(3), item: InventoryItem::Gun });
    assert!(matches!(side, SideChannel::AdminBurnFail { .. }));
    assert_eq!(before, format!("{:?}", db.state()));
}

#[test]
fn give_then_burn_succeeds() {
    let mut db = Database::new();
    db.add(DBEvent::AdminGive { user: UserId(3), item: InventoryItem::Gun });
    assert_eq!(db.state().get_user_or_default(&UserId(3)).items, vec![InventoryItem::Gun]);
    let side = db.add(DBEvent::AdminBurn { user: UserId(3), item: InventoryItem::Gun });
    assert!(matches!(side, SideChannel::Nothing));
    assert!(db.state().get_user_or_default(&UserId(3)).items.is_empty());
}

#[test]
fn drop_item_removes_first_instance_only() {
    let mut user = DBUser::default();
    user.give_item(InventoryItem::Stick);
    user.give_item(InventoryItem::Rock);
    user.give_item(InventoryItem::Stick);
    assert!(user.drop_item(InventoryItem::Stick).is_ok());
    assert_eq!(user.items, vec![InventoryItem::Rock, InventoryItem::Stick]);
    assert!(matches!(
        user.drop_item(InventoryItem::Wand),
        Err(DBUserError::UserDoesNotHaveItem(InventoryItem::Wand))
    ));
}

#[test]
fn item_counts_aggregates() {
    let items = vec![InventoryItem::Stick, InventoryItem::Rock, InventoryItem::Stick];
    let counts = item_counts(&items);
    assert_eq!(counts.len(), 2);
    assert!(counts.contains(&(InventoryItem::Stick, 2)));
    assert!(counts.contains(&(InventoryItem::Rock, 1)));
}

#[test]
fn living_builder_validates() {
    let life = LivingBuilder::new().health(150).build().unwrap();
    assert_eq!(life.health, 150);
    assert_eq!(life.max_health, 150);
    let bad = LivingBuilder::new().health(10).max_health(5).build();
    assert!(matches!(bad, Err(LivingBuilderError::HealthGreaterThanMaxHealth)));
}

#[test]
fn living_heal_and_damage_saturate() {
    let mut life = Living::new().health(100).build().unwrap();
    life.damage(30);
    assert_eq!(life.health(), 70);
    life.damage(1000);
    assert_eq!(life.health(), 0);
    assert!(life.dead());
    life.heal(40);
    assert_eq!(life.health(), 40);
    life.heal(1000);
    assert_eq!(life.health(), 100);
    assert_eq!(life.max_health(), 100);
    assert!(!life.dead());
}

#[test]
fn rarity_labels_and_colors() {
    assert_eq!(Rarity::Common.name(), "[common]");
    assert_eq!(Rarity::Unique.name(), "[unique]");
    assert_eq!(Rarity::Common.color().0, 0xFFFFFF);
    assert_eq!(Rarity::Mythical.color().0, 0x6A00DF);
}

#[test]
fn item_info_metadata() {
    let info = InventoryItem::ScytheVivi.info();
    assert_eq!(info.name, "Vivi's Scythe");
    assert!(matches!(info.rarity, Rarity::Unique));
    let info = InventoryItem::Stick.info();
    assert_eq!(info.name, "Stick");
    assert!(matches!(info.rarity, Rarity::Common));
    assert_eq!(info.description, "A wooden rod from a tree.");
    let info = InventoryItem::Gun.info();
    assert_eq!(
        info.description,
        "How the hell is this legal? (deals a lot of damage, but large surface area)"
    );
}

#[test]
fn admin_is_a_fixed_id() {
    assert!(is_admin(UserId(ADMIN_USER)));
    assert!(!is_admin(UserId(1)));
}

#[test]
fn error_messages() {
    assert_eq!(
        DBUserError::UserDoesNotHaveItem(InventoryItem::Gun).message(),
        "user does not have item"
    );
    assert_eq!(DBUserError::FontFailedToParse.message(), "Font failed to parse");
    assert_eq!(
        LivingBuilderError::HealthGreaterThanMaxHealth.message(),
        "life: health > max_health"
    );
}

#[test]
fn try_add_refuses_counter_overflow() {
    let mut db = Database {
        state: DBState {
            counter: u64::MAX,
            people_who_counted: vec![],
            flips_in_a_row: 0,
            users: vec![],
            servers: vec![],
            last_typed_user: UserId(0),
        },
        timeline: vec![],
    };
    let before = format!("{:?}", db.state());
    assert!(db.try_add(counter(1)).is_none());
    assert_eq!(before, format!("{:?}", db.state()));
    db.state.counter = 7;
    assert!(db.try_add(counter(1)).is_some());
    assert_eq!(db.state().counter, 8);
}

#[test]
fn try_add_refuses_level_carry_past_bounds() {
    // A user parked at the highest representable level, close enough to the
    // requirement that a 15-XP gain would carry past it.
    let top_level = u32::MAX as u64;
    let required = 100 + top_level * top_level / 2;
    let user = DBUser {
        this_levels_xp: required - 10,
        xp_until_next_level: required,
        level: top_level,
        items: vec![],
        life: Living { health: 150, max_health: 150 },
    };
    let mut db = Database {
        state: DBState {
            counter: 0,
            people_who_counted: vec![],
            flips_in_a_row: 0,
            users: vec![(UserId(5), user)],
            servers: vec![],
            last_typed_user: UserId(0),
        },
        timeline: vec![],
    };
    assert!(db
        .try_add(DBEvent::UserSendMessage { user: UserId(5), length: 30 })
        .is_none());
    // The same message from the marked last-typed user is a harmless no-op.
    db.state.last_typed_user = UserId(5);
    assert!(db
        .try_add(DBEvent::UserSendMessage { user: UserId(5), length: 30 })
        .is_some());
}

#[test]
fn gain_xp_with_huge_gain_keeps_invariant() {
    let mut user = DBUser::default();
    user.gain_xp(u64::MAX);
    assert!(user.this_levels_xp < user.xp_until_next_level);
    assert!(user.level > 1);
    assert_eq!(user.xp_until_next_level, 100 + user.level * user.level / 2);
}
