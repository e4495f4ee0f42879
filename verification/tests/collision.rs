use black_friday::actors::{FallingObject, FinalScore, ObjectType, PlayerSlot, Position};
use black_friday::collision::{find_catcher, resolve, strike_players};

fn player(slot_index: usize, x: i32, score: u64, health: u32) -> PlayerSlot {
    PlayerSlot { slot_index, position: Position { x, y: 1000 }, score, health }
}

fn object(x: i32, y: i32, kind: ObjectType) -> FallingObject {
    FallingObject { position: Position { x, y }, kind }
}

#[test]
fn boxes_overlap_only_when_they_share_area() {
    let p = player(0, 750, 0, 3);
    assert!(p.overlaps_object(&object(775, 950, ObjectType::GoodDeal)));
    assert!(p.overlaps_object(&object(651, 901, ObjectType::GoodDeal)));
    assert!(p.overlaps_object(&object(899, 1149, ObjectType::GoodDeal)));
    // touching edges do not overlap
    assert!(!p.overlaps_object(&object(650, 950, ObjectType::GoodDeal)));
    assert!(!p.overlaps_object(&object(900, 950, ObjectType::GoodDeal)));
    assert!(!p.overlaps_object(&object(775, 900, ObjectType::GoodDeal)));
    assert!(!p.overlaps_object(&object(775, 1150, ObjectType::GoodDeal)));
    // far away
    assert!(!p.overlaps_object(&object(0, 950, ObjectType::GoodDeal)));
    assert!(!p.overlaps_object(&object(775, -100, ObjectType::GoodDeal)));
}

#[test]
fn overlap_has_no_trouble_with_extreme_positions() {
    let p = player(0, i32::MAX, 0, 3);
    assert!(!p.overlaps_object(&object(i32::MIN, i32::MIN, ObjectType::BadItem)));
    assert!(p.overlaps_object(&object(i32::MAX, 1000, ObjectType::BadItem)));
}

#[test]
fn good_deal_adds_ten_points_to_the_catcher() {
    let mut players = vec![player(0, 750, 20, 3)];
    let mut objects = vec![object(775, 950, ObjectType::GoodDeal)];
    let out = resolve(&mut players, &mut objects);
    assert!(out.is_empty());
    assert!(objects.is_empty());
    assert_eq!(players, vec![player(0, 750, 30, 3)]);
}

#[test]
fn bad_item_takes_one_health() {
    let mut players = vec![player(0, 750, 20, 3)];
    let mut objects = vec![object(775, 950, ObjectType::BadItem)];
    let out = resolve(&mut players, &mut objects);
    assert!(out.is_empty());
    assert!(objects.is_empty());
    assert_eq!(players, vec![player(0, 750, 20, 2)]);
}

#[test]
fn object_that_overlaps_nobody_stays() {
    let mut players = vec![player(0, 750, 0, 3)];
    let missed = object(100, 950, ObjectType::BadItem);
    let mut objects = vec![missed];
    let out = resolve(&mut players, &mut objects);
    assert!(out.is_empty());
    assert_eq!(objects, vec![missed]);
    assert_eq!(players, vec![player(0, 750, 0, 3)]);
}

#[test]
fn object_below_the_field_is_removed() {
    let mut players = vec![player(0, 750, 0, 3)];
    let last_row = object(100, 1249, ObjectType::BadItem);
    let mut objects = vec![
        object(100, 1250, ObjectType::BadItem),
        last_row,
        object(200, 3000, ObjectType::GoodDeal),
    ];
    resolve(&mut players, &mut objects);
    assert_eq!(objects, vec![last_row]);
    assert_eq!(players, vec![player(0, 750, 0, 3)]);
}

#[test]
fn first_player_in_roster_order_catches() {
    let players = vec![player(0, 700, 0, 3), player(1, 760, 0, 3)];
    let shared = object(770, 950, ObjectType::GoodDeal);
    assert_eq!(find_catcher(&players, &shared), Some(0));
    let mut after = players.clone();
    assert!(strike_players(&mut after, &shared));
    assert_eq!(after, vec![player(0, 700, 10, 3), player(1, 760, 0, 3)]);
    let only_second = object(860, 950, ObjectType::GoodDeal);
    assert_eq!(find_catcher(&players, &only_second), Some(1));
    let nobody = object(1200, 950, ObjectType::GoodDeal);
    assert_eq!(find_catcher(&players, &nobody), None);
    let mut untouched = players.clone();
    assert!(!strike_players(&mut untouched, &nobody));
    assert_eq!(untouched, players);
}

#[test]
fn object_is_caught_by_one_player_only() {
    let mut players = vec![player(0, 700, 0, 3), player(1, 760, 0, 3)];
    let mut objects = vec![object(770, 950, ObjectType::BadItem)];
    resolve(&mut players, &mut objects);
    assert!(objects.is_empty());
    assert_eq!(players, vec![player(0, 700, 0, 2), player(1, 760, 0, 3)]);
}

#[test]
fn dead_player_catches_nothing() {
    let players = vec![player(0, 700, 0, 0), player(1, 760, 0, 3)];
    let shared = object(770, 950, ObjectType::GoodDeal);
    assert_eq!(find_catcher(&players, &shared), Some(1));
    let alone = vec![player(0, 700, 0, 0)];
    assert_eq!(find_catcher(&alone, &shared), None);
}

#[test]
fn player_who_dies_in_the_pass_lets_later_objects_through() {
    let mut players = vec![player(0, 700, 40, 1), player(1, 760, 0, 3)];
    let mut objects = vec![
        object(710, 950, ObjectType::BadItem),
        object(770, 950, ObjectType::GoodDeal),
        object(610, 950, ObjectType::GoodDeal),
    ];
    let passed = objects[2];
    let out = resolve(&mut players, &mut objects);
    assert_eq!(out, vec![FinalScore { slot_index: 0, score: 40 }]);
    assert_eq!(players, vec![player(1, 760, 10, 3)]);
    assert_eq!(objects, vec![passed]);
}

#[test]
fn health_stops_at_zero() {
    let mut players = vec![player(0, 750, 0, 1)];
    let hit = object(775, 950, ObjectType::BadItem);
    assert!(strike_players(&mut players, &hit));
    assert_eq!(players[0].health, 0);
    assert!(!strike_players(&mut players, &hit));
    assert_eq!(players[0].health, 0);
}

#[test]
fn eliminated_players_leave_in_roster_order() {
    let mut players = vec![player(0, 300, 70, 1), player(1, 900, 30, 1)];
    let mut objects = vec![
        object(910, 950, ObjectType::BadItem),
        object(310, 950, ObjectType::BadItem),
    ];
    let out = resolve(&mut players, &mut objects);
    assert_eq!(
        out,
        vec![FinalScore { slot_index: 0, score: 70 }, FinalScore { slot_index: 1, score: 30 }]
    );
    assert!(players.is_empty());
    assert!(objects.is_empty());
}

#[test]
fn survivors_keep_their_order() {
    let mut players = vec![player(0, 750, 0, 3)];
    let a = object(0, 100, ObjectType::GoodDeal);
    let b = object(200, 300, ObjectType::BadItem);
    let c = object(1400, 1100, ObjectType::GoodDeal);
    let mut objects = vec![
        a,
        object(775, 950, ObjectType::GoodDeal),
        b,
        object(760, 1000, ObjectType::GoodDeal),
        c,
    ];
    resolve(&mut players, &mut objects);
    assert_eq!(objects, vec![a, b, c]);
    assert_eq!(players[0].score, 20);
}

#[test]
fn resolve_with_nobody_and_nothing_does_nothing() {
    let mut players: Vec<PlayerSlot> = Vec::new();
    let mut objects: Vec<FallingObject> = Vec::new();
    assert!(resolve(&mut players, &mut objects).is_empty());
    let stays = object(100, 100, ObjectType::BadItem);
    objects.push(stays);
    assert!(resolve(&mut players, &mut objects).is_empty());
    assert_eq!(objects, vec![stays]);
}
