use black_friday::actors::PlayerMode;
use black_friday::leaderboard::{Initials, Leaderboard, LeaderboardEntry};

fn name(text: &str) -> Initials {
    Initials::parse(text).unwrap()
}

fn entry(score: u64, text: &str) -> LeaderboardEntry {
    LeaderboardEntry { score, mode: PlayerMode::Single, name: name(text) }
}

fn scores(board: &Leaderboard) -> Vec<u64> {
    board.entries().iter().map(|entry| entry.score).collect()
}

fn board_of(list: &[(u64, &str)]) -> Leaderboard {
    let mut board = Leaderboard::new();
    for (score, text) in list {
        board.add_entry(*score, PlayerMode::Single, name(text));
    }
    board
}

#[test]
fn new_board_is_empty() {
    assert!(Leaderboard::new().entries().is_empty());
}

#[test]
fn names_are_three_letters() {
    assert_eq!(Initials::new().letters(), ['A', 'A', 'A']);
    assert_eq!(name("BAA").letters(), ['B', 'A', 'A']);
    assert_eq!(name("XYZ").letters(), ['X', 'Y', 'Z']);
    assert_eq!(Initials::from_letters('Q', 'R', 'S'), Some(name("QRS")));
    assert_eq!(Initials::from_letters('q', 'R', 'S'), None);
    assert_eq!(Initials::from_letters('Q', '@', 'S'), None);
    assert_eq!(Initials::from_letters('Q', 'R', '['), None);
    for text in ["", "AB", "ABCD", "abc", "A1C", "ÀBC", "AB ", "ÉÉÉ"] {
        assert_eq!(Initials::parse(text), None);
        assert_eq!(Initials::parse_or_default(text), Initials::new());
    }
    assert_eq!(Initials::parse_or_default("ZZZ"), name("ZZZ"));
}

#[test]
fn letters_cycle_around_the_alphabet() {
    let mut initials = Initials::new();
    initials.cycle(0, true);
    assert_eq!(initials, name("BAA"));
    initials.cycle(0, false);
    initials.cycle(0, false);
    assert_eq!(initials, name("ZAA"));
    initials.cycle(0, true);
    assert_eq!(initials, name("AAA"));
    initials.cycle(1, true);
    initials.cycle(2, false);
    assert_eq!(initials, name("ABZ"));
    initials.cycle(3, true);
    initials.cycle(usize::MAX, false);
    assert_eq!(initials, name("ABZ"));
    for _ in 0..26 {
        initials.cycle(1, true);
    }
    assert_eq!(initials, name("ABZ"));
    for _ in 0..25 {
        initials.cycle(2, true);
    }
    assert_eq!(initials, name("ABY"));
}

#[test]
fn entries_are_ranked_by_score() {
    let board = board_of(&[(50, "AAA"), (100, "BBB"), (70, "CCC"), (0, "DDD")]);
    assert_eq!(
        board.entries(),
        &vec![entry(100, "BBB"), entry(70, "CCC"), entry(50, "AAA"), entry(0, "DDD")]
    );
}

#[test]
fn entry_keeps_its_mode_and_name() {
    let mut board = Leaderboard::new();
    board.add_entry(30, PlayerMode::Two, name("BAA"));
    assert_eq!(
        board.entries(),
        &vec![LeaderboardEntry { score: 30, mode: PlayerMode::Two, name: name("BAA") }]
    );
}

#[test]
fn equal_scores_keep_the_order_of_arrival() {
    let board = board_of(&[(50, "AAA"), (50, "BBB"), (70, "CCC"), (50, "DDD"), (70, "EEE")]);
    assert_eq!(
        board.entries(),
        &vec![
            entry(70, "CCC"),
            entry(70, "EEE"),
            entry(50, "AAA"),
            entry(50, "BBB"),
            entry(50, "DDD"),
        ]
    );
}

#[test]
fn board_keeps_the_ten_best() {
    let mut board = Leaderboard::new();
    for score in [5u64, 80, 20, 60, 40, 90, 10, 70, 30, 50] {
        board.add_entry(score, PlayerMode::Single, Initials::new());
        assert!(board.entries().len() <= 10);
    }
    assert_eq!(scores(&board), vec![90, 80, 70, 60, 50, 40, 30, 20, 10, 5]);
    board.add_entry(55, PlayerMode::Single, name("NEW"));
    assert_eq!(scores(&board), vec![90, 80, 70, 60, 55, 50, 40, 30, 20, 10]);
    assert_eq!(board.entries()[4], entry(55, "NEW"));
    board.add_entry(100, PlayerMode::Single, name("TOP"));
    assert_eq!(scores(&board), vec![100, 90, 80, 70, 60, 55, 50, 40, 30, 20]);
}

#[test]
fn entry_below_a_full_board_falls_off() {
    let mut board = Leaderboard::new();
    for score in (1..=10u64).rev() {
        board.add_entry(score * 10, PlayerMode::Single, Initials::new());
    }
    let before = board.entries().clone();
    board.add_entry(5, PlayerMode::Two, name("LOW"));
    assert_eq!(board.entries(), &before);
    // a tie with the last entry arrives behind it, and falls off too
    board.add_entry(10, PlayerMode::Two, name("TIE"));
    assert_eq!(board.entries(), &before);
    board.add_entry(11, PlayerMode::Two, name("WIN"));
    assert_eq!(board.entries().len(), 10);
    assert_eq!(board.entries()[9], LeaderboardEntry { score: 11, mode: PlayerMode::Two, name: name("WIN") });
}

#[test]
fn any_run_of_additions_leaves_an_ordered_board_of_added_entries() {
    let mut board = Leaderboard::new();
    let mut added: Vec<LeaderboardEntry> = Vec::new();
    let mut seed: u64 = 12345;
    for round in 0..200u64 {
        seed = seed.wrapping_mul(6364136223846793005).wrapping_add(1442695040888963407);
        let score = (seed >> 33) % 40;
        let letter = (b'A' + (round % 26) as u8) as char;
        let initials = Initials::from_letters(letter, 'A', letter).unwrap();
        board.add_entry(score, PlayerMode::Two, initials);
        added.push(LeaderboardEntry { score, mode: PlayerMode::Two, name: initials });
        let entries = board.entries();
        assert_eq!(entries.len(), added.len().min(10));
        for pair in entries.windows(2) {
            assert!(pair[0].score >= pair[1].score);
        }
        for kept in entries {
            assert!(added.contains(kept));
        }
        let lowest = entries.last().unwrap().score;
        for seen in &added {
            if !entries.contains(seen) {
                assert!(seen.score <= lowest);
            }
        }
        let mut best: Vec<u64> = added.iter().map(|entry| entry.score).collect();
        best.sort_by(|a, b| b.cmp(a));
        best.truncate(10);
        assert_eq!(scores(&board), best);
    }
}

#[test]
fn restore_gives_a_stored_board_back() {
    let stored = vec![entry(90, "AAA"), entry(90, "BBB"), entry(40, "CCC")];
    assert_eq!(Leaderboard::restore(&stored).entries(), &stored);
    assert!(Leaderboard::restore(&Vec::new()).entries().is_empty());
    let full: Vec<LeaderboardEntry> = (0..10u64).map(|n| entry(100 - n, "FUL")).collect();
    assert_eq!(Leaderboard::restore(&full).entries(), &full);
}

#[test]
fn restore_orders_and_cuts_what_is_no_board() {
    let stored = vec![entry(10, "AAA"), entry(90, "BBB"), entry(40, "CCC")];
    assert_eq!(
        Leaderboard::restore(&stored).entries(),
        &vec![entry(90, "BBB"), entry(40, "CCC"), entry(10, "AAA")]
    );
    let long: Vec<LeaderboardEntry> = (0..25u64).map(|n| entry(n, "LNG")).collect();
    let restored = Leaderboard::restore(&long);
    assert_eq!(scores(&restored), vec![24, 23, 22, 21, 20, 19, 18, 17, 16, 15]);
}

#[test]
fn stored_record_becomes_an_entry() {
    assert_eq!(
        LeaderboardEntry::from_record(120, 0, Some("BOB")),
        LeaderboardEntry { score: 120, mode: PlayerMode::Single, name: name("BOB") }
    );
    assert_eq!(
        LeaderboardEntry::from_record(7, 1, Some("ZED")),
        LeaderboardEntry { score: 7, mode: PlayerMode::Two, name: name("ZED") }
    );
    assert_eq!(LeaderboardEntry::from_record(7, 9, None).mode, PlayerMode::Two);
    assert_eq!(LeaderboardEntry::from_record(7, 0, None).name, Initials::new());
    assert_eq!(LeaderboardEntry::from_record(7, 0, Some("bob")).name, Initials::new());
    assert_eq!(LeaderboardEntry::from_record(7, 0, Some("ROBERT")).name, Initials::new());
}

#[test]
fn mode_tags_round_trip() {
    assert_eq!(PlayerMode::Single.tag(), 0);
    assert_eq!(PlayerMode::Two.tag(), 1);
    assert_eq!(PlayerMode::from_tag(0), PlayerMode::Single);
    assert_eq!(PlayerMode::from_tag(1), PlayerMode::Two);
    assert_eq!(PlayerMode::from_tag(255), PlayerMode::Two);
    for mode in [PlayerMode::Single, PlayerMode::Two] {
        assert_eq!(PlayerMode::from_tag(mode.tag()), mode);
    }
    assert_eq!(PlayerMode::Single.player_count(), 1);
    assert_eq!(PlayerMode::Two.player_count(), 2);
}
