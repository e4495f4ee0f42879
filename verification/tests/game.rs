use black_friday::actors::{FallingObject, FinalScore, ObjectType, PlayerMode};
use black_friday::game::{GamePhase, GameState, StorageAction};
use black_friday::input::InputSnapshot;
use black_friday::leaderboard::{Initials, LeaderboardEntry};

fn buttons(set: impl Fn(&mut InputSnapshot)) -> InputSnapshot {
    let mut snapshot = InputSnapshot::empty();
    set(&mut snapshot);
    snapshot
}

fn none() -> InputSnapshot {
    InputSnapshot::empty()
}

fn confirm() -> InputSnapshot {
    buttons(|s| s.player1_a = true)
}

fn initials(text: &str) -> Initials {
    Initials::parse(text).unwrap()
}

/// One tick in which every object that is due is made by `make`.
fn tick(
    game: &mut GameState,
    inputs: &InputSnapshot,
    make: &mut dyn FnMut(&GameState) -> FallingObject,
) -> StorageAction {
    let spawned: Vec<FallingObject> = if game.phase() == GamePhase::Playing {
        let due = game.round().schedule().spawns_due();
        (0..due).map(|_| make(game)).collect()
    } else {
        Vec::new()
    };
    game.tick_with(inputs, spawned)
}

/// One tick in which the objects that are due appear out of everybody's way.
fn quiet_tick(game: &mut GameState, inputs: &InputSnapshot) -> StorageAction {
    tick(game, inputs, &mut |_| FallingObject::new(0, ObjectType::GoodDeal))
}

fn press_and_release(game: &mut GameState, inputs: &InputSnapshot) -> StorageAction {
    let action = quiet_tick(game, inputs);
    quiet_tick(game, &none());
    action
}

/// Plays until nobody is left, with bad items on the first player of the roster
/// once `good` good deals have come down on them.
fn play_out(game: &mut GameState, good: u64) {
    let mut made = 0;
    let mut ticks = 0;
    while game.phase() == GamePhase::Playing {
        tick(game, &none(), &mut |game| {
            let x = game.round().players()[0].position.x;
            made += 1;
            FallingObject::new(x, if made <= good { ObjectType::GoodDeal } else { ObjectType::BadItem })
        });
        ticks += 1;
        assert!(ticks < 20_000);
    }
}

#[test]
fn game_starts_at_the_menu() {
    let game = GameState::new();
    assert_eq!(game.phase(), GamePhase::ModeSelect);
    assert_eq!(game.menu_selection(), PlayerMode::Single);
    assert!(game.round().players().is_empty());
    assert!(game.round().objects().is_empty());
    assert!(game.leaderboard().entries().is_empty());
    assert!(game.name_entry().pending().is_empty());
}

#[test]
fn menu_without_presses_stays() {
    let mut game = GameState::new();
    for _ in 0..10 {
        assert_eq!(quiet_tick(&mut game, &none()), StorageAction::Nothing);
    }
    assert_eq!(game.phase(), GamePhase::ModeSelect);
    assert_eq!(game.menu_selection(), PlayerMode::Single);
    assert_eq!(game.round().schedule().tick_count, 0);
}

#[test]
fn right_then_confirm_starts_a_round_for_two() {
    let mut game = GameState::new();
    assert_eq!(game.menu_selection(), PlayerMode::Single);
    quiet_tick(&mut game, &buttons(|s| s.player1_right = true));
    assert_eq!(game.menu_selection(), PlayerMode::Two);
    assert_eq!(game.phase(), GamePhase::ModeSelect);
    quiet_tick(&mut game, &none());
    assert_eq!(quiet_tick(&mut game, &confirm()), StorageAction::Nothing);
    assert_eq!(game.phase(), GamePhase::Playing);
    assert_eq!(game.round().mode(), PlayerMode::Two);
    let players = game.round().players();
    assert_eq!(players.len(), 2);
    assert_eq!((players[0].slot_index, players[0].position.x), (0, 475));
    assert_eq!((players[1].slot_index, players[1].position.x), (1, 1025));
    for player in players {
        assert_eq!(player.health, 3);
        assert_eq!(player.score, 0);
    }
    assert_eq!(game.round().schedule().difficulty, 5);
}

#[test]
fn left_and_right_pick_the_mode() {
    let mut game = GameState::new();
    press_and_release(&mut game, &buttons(|s| s.player2_right = true));
    assert_eq!(game.menu_selection(), PlayerMode::Two);
    press_and_release(&mut game, &buttons(|s| s.player2_left = true));
    assert_eq!(game.menu_selection(), PlayerMode::Single);
    press_and_release(&mut game, &buttons(|s| {
        s.player1_left = true;
        s.player1_right = true;
    }));
    assert_eq!(game.menu_selection(), PlayerMode::Two);
    press_and_release(&mut game, &buttons(|s| s.player1_left = true));
    assert_eq!(game.menu_selection(), PlayerMode::Single);
    press_and_release(&mut game, &confirm());
    assert_eq!(game.round().mode(), PlayerMode::Single);
    assert_eq!(game.round().players().len(), 1);
    assert_eq!(game.round().players()[0].position.x, 750);
}

#[test]
fn system_buttons_start_their_mode_at_once() {
    let mut game = GameState::new();
    quiet_tick(&mut game, &buttons(|s| s.system_two_player = true));
    assert_eq!(game.phase(), GamePhase::Playing);
    assert_eq!(game.round().mode(), PlayerMode::Two);
    assert_eq!(game.menu_selection(), PlayerMode::Single);

    let mut game = GameState::new();
    press_and_release(&mut game, &buttons(|s| s.player1_right = true));
    quiet_tick(&mut game, &buttons(|s| s.system_one_player = true));
    assert_eq!(game.phase(), GamePhase::Playing);
    assert_eq!(game.round().mode(), PlayerMode::Single);

    let mut game = GameState::new();
    quiet_tick(&mut game, &buttons(|s| {
        s.system_one_player = true;
        s.system_two_player = true;
        s.player1_a = true;
    }));
    assert_eq!(game.round().mode(), PlayerMode::Two);
}

#[test]
fn the_tick_that_starts_a_round_is_its_first_tick() {
    let mut game = GameState::new();
    quiet_tick(&mut game, &confirm());
    assert_eq!(game.round().schedule().tick_count, 1);
    assert_eq!(game.round().schedule().difficulty, 5);
}

#[test]
fn button_held_since_before_the_menu_starts_nothing() {
    let mut game = GameState::new();
    quiet_tick(&mut game, &confirm());
    play_out(&mut game, 0);
    // through name entry to game over, then to the menu with the button held
    quiet_tick(&mut game, &none());
    quiet_tick(&mut game, &confirm());
    assert_eq!(game.phase(), GamePhase::GameOver);
    quiet_tick(&mut game, &none());
    assert_eq!(quiet_tick(&mut game, &confirm()), StorageAction::Reload);
    assert_eq!(game.phase(), GamePhase::ModeSelect);
    for _ in 0..30 {
        quiet_tick(&mut game, &confirm());
        assert_eq!(game.phase(), GamePhase::ModeSelect);
    }
    quiet_tick(&mut game, &none());
    quiet_tick(&mut game, &confirm());
    assert_eq!(game.phase(), GamePhase::Playing);
}

#[test]
fn held_directions_move_the_players() {
    let mut game = GameState::new();
    quiet_tick(&mut game, &buttons(|s| s.system_two_player = true));
    let right = buttons(|s| {
        s.player1_right = true;
        s.player2_left = true;
    });
    for step in 1..=5 {
        quiet_tick(&mut game, &right);
        assert_eq!(game.round().players()[0].position.x, 475 + 15 * step);
        assert_eq!(game.round().players()[1].position.x, 1025 - 15 * step);
    }
    quiet_tick(&mut game, &buttons(|s| {
        s.player1_left = true;
        s.player1_right = true;
    }));
    assert_eq!(game.round().players()[0].position.x, 550);
    quiet_tick(&mut game, &buttons(|s| s.player1_left = true));
    assert_eq!(game.round().players()[0].position.x, 535);
    assert_eq!(game.round().players()[1].position.x, 950);
}

#[test]
fn second_player_keys_do_nothing_in_a_single_round() {
    let mut game = GameState::new();
    quiet_tick(&mut game, &confirm());
    quiet_tick(&mut game, &buttons(|s| {
        s.player2_left = true;
        s.player2_right = true;
    }));
    assert_eq!(game.round().players().len(), 1);
    assert_eq!(game.round().players()[0].position.x, 750);
}

#[test]
fn players_stay_inside_the_field_whatever_is_held() {
    let mut game = GameState::new();
    quiet_tick(&mut game, &buttons(|s| s.system_two_player = true));
    let left = buttons(|s| {
        s.player1_left = true;
        s.player2_left = true;
    });
    for _ in 0..150 {
        quiet_tick(&mut game, &left);
        for player in game.round().players() {
            assert!(0 <= player.position.x && player.position.x <= 1500);
            assert!(player.health > 0);
        }
    }
    assert_eq!(game.round().players()[0].position.x, 0);
    assert_eq!(game.round().players()[1].position.x, 0);
}

#[test]
fn three_bad_items_lead_to_name_entry() {
    let mut game = GameState::new();
    quiet_tick(&mut game, &confirm());
    assert_eq!(game.round().players()[0].health, 3);
    let mut hits = 0;
    let mut last_health = 3;
    while game.phase() == GamePhase::Playing {
        assert_eq!(
            tick(&mut game, &none(), &mut |game| {
                FallingObject::new(game.round().players()[0].position.x, ObjectType::BadItem)
            }),
            StorageAction::Nothing
        );
        match game.round().players().first() {
            Some(player) => {
                assert_eq!(game.phase(), GamePhase::Playing);
                assert!(player.health > 0);
                if player.health < last_health {
                    assert_eq!(player.health, last_health - 1);
                    last_health = player.health;
                    hits += 1;
                }
            },
            None => {
                hits += 1;
            },
        }
    }
    assert_eq!(hits, 3);
    assert_eq!(game.phase(), GamePhase::NameEntry);
    assert!(game.round().players().is_empty());
    assert_eq!(game.round().final_scores(), &vec![FinalScore { slot_index: 0, score: 0 }]);
    assert_eq!(game.name_entry().pending(), &vec![FinalScore { slot_index: 0, score: 0 }]);
    assert_eq!(game.name_entry().name(), initials("AAA"));
    assert_eq!(game.name_entry().cursor(), 0);
}

#[test]
fn round_for_two_goes_on_until_both_are_out() {
    let mut game = GameState::new();
    quiet_tick(&mut game, &buttons(|s| s.system_two_player = true));
    // bad items on player 0 only, and one good deal for player 1 first
    let mut made = 0;
    while game.round().players().len() == 2 {
        tick(&mut game, &none(), &mut |game| {
            made += 1;
            if made == 1 {
                FallingObject::new(game.round().players()[1].position.x, ObjectType::GoodDeal)
            } else {
                FallingObject::new(game.round().players()[0].position.x, ObjectType::BadItem)
            }
        });
        assert_eq!(game.phase(), GamePhase::Playing);
    }
    let survivor = game.round().players()[0];
    assert_eq!(survivor.slot_index, 1);
    assert_eq!(survivor.health, 3);
    assert_eq!(survivor.score, 10);
    assert_eq!(game.round().final_scores(), &vec![FinalScore { slot_index: 0, score: 0 }]);
    assert!(game.name_entry().pending().is_empty());

    // the second player still answers to their own keys
    let x = survivor.position.x;
    quiet_tick(&mut game, &buttons(|s| s.player2_right = true));
    assert_eq!(game.round().players()[0].position.x, x + 15);
    quiet_tick(&mut game, &buttons(|s| s.player1_right = true));
    assert_eq!(game.round().players()[0].position.x, x + 15);

    for _ in 0..100 {
        quiet_tick(&mut game, &none());
        assert_eq!(game.phase(), GamePhase::Playing);
    }

    play_out(&mut game, 0);
    assert_eq!(game.phase(), GamePhase::NameEntry);
    let scores = vec![FinalScore { slot_index: 0, score: 0 }, FinalScore { slot_index: 1, score: 10 }];
    assert_eq!(game.round().final_scores(), &scores);
    assert_eq!(game.name_entry().pending(), &scores);
}

#[test]
fn name_entry_commits_the_score_under_the_entered_name() {
    let mut game = GameState::new();
    quiet_tick(&mut game, &confirm());
    play_out(&mut game, 10);
    assert_eq!(game.phase(), GamePhase::NameEntry);
    assert_eq!(game.name_entry().pending(), &vec![FinalScore { slot_index: 0, score: 100 }]);
    assert_eq!(game.name_entry().name(), initials("AAA"));

    assert_eq!(quiet_tick(&mut game, &buttons(|s| s.player1_down = true)), StorageAction::Nothing);
    assert_eq!(game.name_entry().name(), initials("BAA"));
    assert!(game.leaderboard().entries().is_empty());
    quiet_tick(&mut game, &none());
    assert_eq!(quiet_tick(&mut game, &confirm()), StorageAction::Save);
    assert_eq!(game.phase(), GamePhase::GameOver);
    assert_eq!(
        game.leaderboard().entries(),
        &vec![LeaderboardEntry { score: 100, mode: PlayerMode::Single, name: initials("BAA") }]
    );
    assert!(game.name_entry().pending().is_empty());
    assert_eq!(game.round().final_scores(), &vec![FinalScore { slot_index: 0, score: 100 }]);
}

#[test]
fn held_buttons_act_once_in_name_entry() {
    let mut game = GameState::new();
    quiet_tick(&mut game, &buttons(|s| s.system_two_player = true));
    play_out(&mut game, 0);
    assert_eq!(game.name_entry().pending().len(), 2);
    let down = buttons(|s| s.player1_down = true);
    for _ in 0..20 {
        quiet_tick(&mut game, &down);
    }
    assert_eq!(game.name_entry().name(), initials("BAA"));
    let down_and_confirm = buttons(|s| {
        s.player1_down = true;
        s.player1_a = true;
    });
    let mut saves = 0;
    for _ in 0..20 {
        if quiet_tick(&mut game, &down_and_confirm) == StorageAction::Save {
            saves += 1;
        }
    }
    assert_eq!(saves, 1);
    assert_eq!(game.phase(), GamePhase::NameEntry);
    assert_eq!(game.name_entry().pending().len(), 1);
    assert_eq!(game.name_entry().name(), initials("AAA"));
    assert_eq!(game.leaderboard().entries().len(), 1);
    assert_eq!(game.leaderboard().entries()[0].name, initials("BAA"));
    assert_eq!(game.leaderboard().entries()[0].mode, PlayerMode::Two);
    quiet_tick(&mut game, &none());
    assert_eq!(quiet_tick(&mut game, &buttons(|s| s.player2_a = true)), StorageAction::Save);
    assert_eq!(game.phase(), GamePhase::GameOver);
    assert_eq!(game.leaderboard().entries().len(), 2);
}

#[test]
fn game_over_goes_back_to_the_menu_on_confirm() {
    let mut game = GameState::new();
    press_and_release(&mut game, &buttons(|s| s.player1_right = true));
    quiet_tick(&mut game, &confirm());
    play_out(&mut game, 1);
    quiet_tick(&mut game, &none());
    press_and_release(&mut game, &confirm());
    press_and_release(&mut game, &confirm());
    assert_eq!(game.phase(), GamePhase::GameOver);
    assert_eq!(game.leaderboard().entries().len(), 2);
    for _ in 0..5 {
        assert_eq!(quiet_tick(&mut game, &none()), StorageAction::Nothing);
        assert_eq!(game.phase(), GamePhase::GameOver);
    }
    assert_eq!(quiet_tick(&mut game, &confirm()), StorageAction::Reload);
    assert_eq!(game.phase(), GamePhase::ModeSelect);
    assert_eq!(game.menu_selection(), PlayerMode::Single);
    assert!(game.round().players().is_empty());
    assert!(game.round().objects().is_empty());
    assert!(game.round().final_scores().is_empty());
    assert_eq!(game.round().schedule().tick_count, 0);
    assert_eq!(game.round().schedule().difficulty, 5);
    assert_eq!(game.leaderboard().entries().len(), 2);
}

#[test]
fn game_over_restarts_on_a_system_button() {
    let mut game = GameState::new();
    quiet_tick(&mut game, &confirm());
    play_out(&mut game, 2);
    quiet_tick(&mut game, &none());
    press_and_release(&mut game, &confirm());
    assert_eq!(game.phase(), GamePhase::GameOver);
    assert_eq!(
        quiet_tick(&mut game, &buttons(|s| s.system_two_player = true)),
        StorageAction::Nothing
    );
    assert_eq!(game.phase(), GamePhase::Playing);
    assert_eq!(game.round().mode(), PlayerMode::Two);
    assert_eq!(game.round().players().len(), 2);
    assert!(game.round().final_scores().is_empty());
    assert!(game.round().objects().is_empty());
    assert_eq!(game.round().schedule().tick_count, 1);
    assert_eq!(game.round().schedule().difficulty, 5);
    assert_eq!(game.leaderboard().entries().len(), 1);
    assert_eq!(game.leaderboard().entries()[0].score, 20);
}

#[test]
fn difficulty_resets_when_a_round_starts() {
    let mut game = GameState::new();
    quiet_tick(&mut game, &confirm());
    let mut last = 5;
    for _ in 0..1300 {
        quiet_tick(&mut game, &none());
        let now = game.round().schedule().difficulty;
        assert!(now >= last);
        last = now;
    }
    assert_eq!(last, 7);
    play_out(&mut game, 0);
    assert!(game.round().schedule().difficulty >= 7);
    quiet_tick(&mut game, &none());
    press_and_release(&mut game, &confirm());
    assert_eq!(game.phase(), GamePhase::GameOver);
    assert!(game.round().schedule().difficulty >= 7);
    quiet_tick(&mut game, &buttons(|s| s.system_one_player = true));
    assert_eq!(game.phase(), GamePhase::Playing);
    assert_eq!(game.round().schedule().difficulty, 5);
}

#[test]
fn load_leaderboard_replaces_the_board() {
    let mut game = GameState::new();
    let stored = vec![
        LeaderboardEntry { score: 300, mode: PlayerMode::Two, name: initials("ANN") },
        LeaderboardEntry { score: 100, mode: PlayerMode::Single, name: initials("BOB") },
    ];
    game.load_leaderboard(&stored);
    assert_eq!(game.leaderboard().entries(), &stored);
    assert_eq!(game.phase(), GamePhase::ModeSelect);
    game.add_to_leaderboard(200, PlayerMode::Single, initials("CAT"));
    assert_eq!(
        game.leaderboard().entries().iter().map(|e| e.score).collect::<Vec<u64>>(),
        vec![300, 200, 100]
    );
    game.load_leaderboard(&Vec::new());
    assert!(game.leaderboard().entries().is_empty());
}

#[test]
fn random_ticks_keep_the_game_sound() {
    let mut game = GameState::new();
    game.tick(&confirm());
    assert_eq!(game.phase(), GamePhase::Playing);
    let mut last = game.round().schedule().difficulty;
    let mut ticks = 1u32;
    while game.phase() == GamePhase::Playing && ticks < 5000 {
        let inputs = buttons(|s| s.player1_left = ticks % 64 < 32);
        assert_eq!(game.tick(&inputs), StorageAction::Nothing);
        ticks += 1;
        assert_eq!(game.round().schedule().tick_count, ticks);
        assert!(game.round().schedule().difficulty >= last);
        last = game.round().schedule().difficulty;
        for player in game.round().players() {
            assert!(player.health > 0);
            assert!(0 <= player.position.x && player.position.x <= 1500);
        }
        for object in game.round().objects() {
            assert!(object.position.y < 1250);
            assert!(0 <= object.position.x && object.position.x < 1550);
        }
    }
    if game.phase() != GamePhase::Playing {
        assert_eq!(game.phase(), GamePhase::NameEntry);
        assert_eq!(game.name_entry().pending().len(), 1);
    }
}

#[test]
fn ending_a_round_without_final_scores_goes_to_game_over() {
    let mut game = GameState::new();
    game.start_name_entry();
    assert_eq!(game.phase(), GamePhase::GameOver);
    assert!(game.name_entry().pending().is_empty());
}

#[test]
fn start_new_game_clears_what_the_last_round_left() {
    let mut game = GameState::new();
    quiet_tick(&mut game, &confirm());
    play_out(&mut game, 3);
    assert_eq!(game.phase(), GamePhase::NameEntry);
    assert!(!game.round().objects().is_empty());
    game.start_new_game(PlayerMode::Two);
    assert_eq!(game.phase(), GamePhase::Playing);
    assert_eq!(game.round().mode(), PlayerMode::Two);
    assert_eq!(game.round().players().len(), 2);
    assert!(game.round().objects().is_empty());
    assert!(game.round().final_scores().is_empty());
    assert!(game.name_entry().pending().is_empty());
    assert_eq!(game.round().schedule().tick_count, 0);
    assert_eq!(game.round().schedule().spawn_meter, 0);
    assert_eq!(game.round().schedule().difficulty, 5);
}

#[test]
fn back_to_menu_and_reset_clear_the_round() {
    let mut game = GameState::new();
    press_and_release(&mut game, &buttons(|s| s.player1_right = true));
    quiet_tick(&mut game, &confirm());
    for _ in 0..100 {
        quiet_tick(&mut game, &none());
    }
    game.reset_runtime();
    assert_eq!(game.phase(), GamePhase::Playing);
    assert_eq!(game.menu_selection(), PlayerMode::Two);
    assert!(game.round().players().is_empty());
    assert!(game.round().objects().is_empty());
    assert_eq!(game.round().schedule().tick_count, 0);
    game.back_to_menu();
    assert_eq!(game.phase(), GamePhase::ModeSelect);
    assert_eq!(game.menu_selection(), PlayerMode::Single);
}

#[test]
fn update_does_nothing_outside_a_round() {
    let mut game = GameState::new();
    for _ in 0..50 {
        game.update();
        game.update_with(Vec::new());
    }
    assert_eq!(game.phase(), GamePhase::ModeSelect);
    assert_eq!(game.round().schedule().tick_count, 0);
    assert!(game.round().objects().is_empty());
}

#[test]
fn handle_input_acts_without_moving_the_round_on() {
    let mut game = GameState::new();
    assert_eq!(game.handle_input(&confirm()), StorageAction::Nothing);
    assert_eq!(game.phase(), GamePhase::Playing);
    assert_eq!(game.round().schedule().tick_count, 0);
    assert_eq!(game.handle_input(&buttons(|s| s.player1_left = true)), StorageAction::Nothing);
    assert_eq!(game.round().players()[0].position.x, 735);
    assert_eq!(game.round().schedule().tick_count, 0);
    game.handle_moves(&buttons(|s| s.player1_right = true));
    assert_eq!(game.round().players()[0].position.x, 750);
}

#[test]
fn a_round_has_room_for_its_next_tick() {
    let mut game = GameState::new();
    assert!(game.can_tick());
    quiet_tick(&mut game, &confirm());
    assert!(game.can_tick());
    play_out(&mut game, 0);
    assert!(game.can_tick());
}
