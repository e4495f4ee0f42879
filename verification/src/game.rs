//! The game as a whole: mode select, play, name entry and game over.
//!
//! One call of `tick` is one frame: it takes the snapshot of the held buttons,
//! lets the current phase act on it, moves the round on if one is in play, and
//! says what the tick asks of storage. Storage itself is the caller's business.

use vstd::prelude::*;
use crate::actors::{FallingObject, PlayerMode};
use crate::config::{DIFFICULTY_ONE, FIELD_WIDTH, PLAYER_WIDTH};
use crate::input::{detect_edges, EdgeSet, InputSnapshot};
use crate::leaderboard::{
    is_board, lemma_with_entry, with_entries, with_entry, Initials, Leaderboard, LeaderboardEntry,
};
use crate::name_entry::{NameEntry, NameEntryView};
use crate::round::{RoundState, RoundView};

verus! {

/// The phase that the game is in.
#[derive(Clone, Copy, Debug, PartialEq, Eq, Structural)]
pub enum GamePhase {
    ModeSelect,
    Playing,
    NameEntry,
    GameOver,
}

/// What a tick asks of the leaderboard's storage.
#[derive(Clone, Copy, Debug, PartialEq, Eq, Structural)]
pub enum StorageAction {
    /// Nothing.
    Nothing,
    /// The leaderboard has a new entry: store it.
    Save,
    /// The game is back at the menu: read the stored leaderboard and hand it to
    /// `load_leaderboard`.
    Reload,
}

/// The state of the game.
pub struct GameState {
    phase: GamePhase,
    menu_selection: PlayerMode,
    round: RoundState,
    name_entry: NameEntry,
    leaderboard: Leaderboard,
    menu_previous: InputSnapshot,
    name_previous: InputSnapshot,
}

/// What the game holds, as plain mathematical values.
pub struct GameView {
    pub phase: GamePhase,
    /// The mode that the menu highlights.
    pub menu_selection: PlayerMode,
    /// The round in play, or what is left of the last one.
    pub round: RoundView,
    pub name_entry: NameEntryView,
    pub leaderboard: Seq<LeaderboardEntry>,
    /// The snapshot of the tick before, for the presses of menu and game over.
    pub menu_previous: InputSnapshot,
    /// The snapshot of the last tick of name entry, for its presses.
    pub name_previous: InputSnapshot,
}

impl GameView {
    /// The invariant of the game: those of its round, of name entry and of the
    /// leaderboard.
    pub open spec fn wf(self) -> bool {
        &&& self.round.wf()
        &&& self.name_entry.wf()
        &&& is_board(self.leaderboard)
    }

    /// The tick counter has room for the next tick of the round in play, if there
    /// is one.
    pub open spec fn can_tick(self) -> bool {
        self.phase == GamePhase::Playing ==> self.round.schedule.tick_count < u32::MAX
    }

    /// The game as it starts up: at the menu, with an empty leaderboard.
    pub open spec fn initial() -> GameView {
        GameView {
            phase: GamePhase::ModeSelect,
            menu_selection: PlayerMode::Single,
            round: RoundView::idle(),
            name_entry: NameEntryView::idle(),
            leaderboard: Seq::empty(),
            menu_previous: InputSnapshot::none(),
            name_previous: InputSnapshot::none(),
        }
    }

    /// The game with a fresh round of the given mode in play.
    pub open spec fn started(self, mode: PlayerMode) -> GameView {
        GameView {
            phase: GamePhase::Playing,
            round: RoundView::fresh(mode),
            name_entry: NameEntryView::idle(),
            ..self
        }
    }

    /// The game back at the menu, with nothing left of the round.
    pub open spec fn at_menu(self) -> GameView {
        GameView {
            phase: GamePhase::ModeSelect,
            menu_selection: PlayerMode::Single,
            round: RoundView::idle(),
            name_entry: NameEntryView::idle(),
            ..self
        }
    }

    /// The game after its round has ended: on to name entry for the final
    /// scores, or straight to game over where there are none.
    pub open spec fn ended(self) -> GameView {
        if self.round.final_scores.len() > 0 {
            GameView {
                phase: GamePhase::NameEntry,
                name_entry: NameEntryView::begun(self.round.final_scores),
                ..self
            }
        } else {
            GameView { phase: GamePhase::GameOver, ..self }
        }
    }

    /// The mode that the menu highlights after the presses of a tick: left picks
    /// one player, right picks two, and right wins over left.
    pub open spec fn selection_after(self, edges: EdgeSet) -> PlayerMode {
        if edges.right {
            PlayerMode::Two
        } else if edges.left {
            PlayerMode::Single
        } else {
            self.menu_selection
        }
    }

    /// The menu after a tick. A system button starts a round of its mode at
    /// once, two players before one; confirm starts a round of the highlighted
    /// mode.
    pub open spec fn after_menu(self, edges: EdgeSet) -> GameView {
        let chosen = GameView { menu_selection: self.selection_after(edges), ..self };
        if edges.system_two_player {
            chosen.started(PlayerMode::Two)
        } else if edges.system_one_player {
            chosen.started(PlayerMode::Single)
        } else if edges.confirm {
            chosen.started(chosen.menu_selection)
        } else {
            chosen
        }
    }

    /// Game over after a tick. A system button starts a round of its mode at
    /// once, two players before one; confirm goes back to the menu.
    pub open spec fn after_game_over(self, edges: EdgeSet) -> GameView {
        if edges.system_two_player {
            self.started(PlayerMode::Two)
        } else if edges.system_one_player {
            self.started(PlayerMode::Single)
        } else if edges.confirm {
            self.at_menu()
        } else {
            self
        }
    }

    /// The round after the moves of a tick. Each held direction moves its
    /// player by one step; the second player moves only in a round for two.
    pub open spec fn after_moves(self, inputs: InputSnapshot) -> GameView {
        let first_left = if inputs.player1_left {
            self.round.with_move(0, -1)
        } else {
            self.round
        };
        let first = if inputs.player1_right {
            first_left.with_move(0, 1)
        } else {
            first_left
        };
        let second_left = if self.round.mode == PlayerMode::Two && inputs.player2_left {
            first.with_move(1, -1)
        } else {
            first
        };
        let second = if self.round.mode == PlayerMode::Two && inputs.player2_right {
            second_left.with_move(1, 1)
        } else {
            second_left
        };
        GameView { round: second, ..self }
    }

    /// Name entry after the presses of a tick. A commit adds its entry to the
    /// leaderboard, and the commit for the last score that waits leads on to game
    /// over.
    pub open spec fn after_name_edges(self, edges: EdgeSet) -> GameView {
        GameView {
            phase: if self.name_entry.finishes(edges) {
                GamePhase::GameOver
            } else {
                self.phase
            },
            name_entry: self.name_entry.after(edges),
            leaderboard: if self.name_entry.commits(edges) {
                with_entry(self.leaderboard, self.name_entry.entry(edges, self.round.mode))
            } else {
                self.leaderboard
            },
            ..self
        }
    }

    /// Name entry after a tick: its presses are those since the last tick of name
    /// entry.
    pub open spec fn after_name_entry(self, inputs: InputSnapshot) -> GameView {
        GameView {
            name_previous: inputs,
            ..self.after_name_edges(EdgeSet::between(self.name_previous, inputs))
        }
    }

    /// The game after the current phase has acted on the snapshot of a tick.
    pub open spec fn after_input(self, inputs: InputSnapshot) -> GameView {
        let edges = EdgeSet::between(self.menu_previous, inputs);
        let acted = match self.phase {
            GamePhase::ModeSelect => self.after_menu(edges),
            GamePhase::GameOver => self.after_game_over(edges),
            GamePhase::Playing => self.after_moves(inputs),
            GamePhase::NameEntry => self.after_name_entry(inputs),
        };
        GameView { menu_previous: inputs, ..acted }
    }

    /// What the tick asks of storage: to save after a commit in name entry, to
    /// reload when game over goes back to the menu.
    pub open spec fn storage_action(self, inputs: InputSnapshot) -> StorageAction {
        let edges = EdgeSet::between(self.menu_previous, inputs);
        match self.phase {
            GamePhase::NameEntry => if self.name_entry.commits(
                EdgeSet::between(self.name_previous, inputs),
            ) {
                StorageAction::Save
            } else {
                StorageAction::Nothing
            },
            GamePhase::GameOver => if !edges.system_two_player && !edges.system_one_player
                && edges.confirm {
                StorageAction::Reload
            } else {
                StorageAction::Nothing
            },
            _ => StorageAction::Nothing,
        }
    }

    /// Whether the tick starts a round.
    pub open spec fn starts_round(self, inputs: InputSnapshot) -> bool {
        self.phase != GamePhase::Playing && self.after_input(inputs).phase == GamePhase::Playing
    }

    /// The game after the round, if one is in play, has moved on by one tick
    /// that brings the objects `spawned`. A round that nobody is left in ends.
    pub open spec fn after_update(self, spawned: Seq<FallingObject>) -> GameView {
        if self.phase == GamePhase::Playing {
            let stepped = GameView { round: self.round.step(spawned), ..self };
            if stepped.round.over() {
                stepped.ended()
            } else {
                stepped
            }
        } else {
            self
        }
    }

    /// The game one tick later: the phase acts on the snapshot, then the round
    /// moves on.
    pub open spec fn tick(self, inputs: InputSnapshot, spawned: Seq<FallingObject>) -> GameView {
        self.after_input(inputs).after_update(spawned)
    }

    /// Whether the objects `spawned` are some that the coming tick may bring:
    /// any list will do where no round is in play once the phase has acted.
    pub open spec fn admits(self, inputs: InputSnapshot, spawned: Seq<FallingObject>) -> bool {
        self.after_input(inputs).phase == GamePhase::Playing ==> self.after_input(
            inputs,
        ).round.schedule.admits(spawned)
    }

    /// `after_input` is what its phase makes of the game, with the snapshot kept
    /// as the one before the next tick.
    proof fn lemma_after_input(self, acted: GameView, kept: GameView, inputs: InputSnapshot)
        requires
            acted == (match self.phase {
                GamePhase::ModeSelect => self.after_menu(
                    EdgeSet::between(self.menu_previous, inputs),
                ),
                GamePhase::GameOver => self.after_game_over(
                    EdgeSet::between(self.menu_previous, inputs),
                ),
                GamePhase::Playing => self.after_moves(inputs),
                GamePhase::NameEntry => self.after_name_entry(inputs),
            }),
            kept == (GameView { menu_previous: inputs, ..acted }),
        ensures
            kept == self.after_input(inputs),
    {
    }

    /// `after_name_entry` is what a commit makes of the game, with the snapshot
    /// kept as the one before the next tick of name entry.
    proof fn lemma_after_name_entry(self, named: GameView, kept: GameView, inputs: InputSnapshot)
        requires
            named == self.after_name_edges(EdgeSet::between(self.name_previous, inputs)),
            kept == (GameView { name_previous: inputs, ..named }),
        ensures
            kept == self.after_name_entry(inputs),
    {
    }

    /// Whatever the buttons, the phase that acts on them leaves the invariant in
    /// place.
    pub proof fn lemma_after_input_wf(self, inputs: InputSnapshot)
        requires
            self.wf(),
        ensures
            self.after_input(inputs).wf(),
            self.can_tick() ==> self.after_input(inputs).can_tick(),
    {
        RoundView::lemma_fresh_wf(PlayerMode::Single);
        RoundView::lemma_fresh_wf(PlayerMode::Two);
        match self.phase {
            GamePhase::ModeSelect => {},
            GamePhase::GameOver => {},
            GamePhase::Playing => {
                let first_left = if inputs.player1_left {
                    self.round.with_move(0, -1)
                } else {
                    self.round
                };
                let first = if inputs.player1_right {
                    first_left.with_move(0, 1)
                } else {
                    first_left
                };
                let second_left = if self.round.mode == PlayerMode::Two && inputs.player2_left {
                    first.with_move(1, -1)
                } else {
                    first
                };
                self.round.lemma_with_move_wf(0, -1);
                first_left.lemma_with_move_wf(0, 1);
                first.lemma_with_move_wf(1, -1);
                second_left.lemma_with_move_wf(1, 1);
            },
            GamePhase::NameEntry => {
                let edges = EdgeSet::between(self.name_previous, inputs);
                self.name_entry.lemma_after_wf(edges);
                lemma_with_entry(
                    self.leaderboard,
                    self.name_entry.entry(edges, self.round.mode),
                );
            },
        }
    }

    /// The invariant holds at every tick: whatever the buttons, and whichever
    /// objects the scheduler brings, the game keeps it. So every player in the
    /// roster is alive, with the box inside the field.
    pub proof fn lemma_tick_wf(self, inputs: InputSnapshot, spawned: Seq<FallingObject>)
        requires
            self.wf(),
            self.can_tick(),
            self.admits(inputs, spawned),
        ensures
            self.tick(inputs, spawned).wf(),
            forall|i: int|
                0 <= i < self.tick(inputs, spawned).round.players.len() ==> {
                    &&& (#[trigger] self.tick(inputs, spawned).round.players[i]).health > 0
                    &&& 0 <= self.tick(inputs, spawned).round.players[i].position.x <= FIELD_WIDTH
                        - PLAYER_WIDTH
                },
    {
        self.lemma_after_input_wf(inputs);
        let acted = self.after_input(inputs);
        if acted.phase == GamePhase::Playing {
            acted.round.lemma_step_wf(spawned);
        }
        self.tick(inputs, spawned).round.lemma_players_sound();
    }

    /// The game after a run of ticks, each with its snapshot and the objects that
    /// it brings.
    pub open spec fn run(self, ticks: Seq<(InputSnapshot, Seq<FallingObject>)>) -> GameView
        decreases ticks.len(),
    {
        if ticks.len() == 0 {
            self
        } else {
            self.run(ticks.drop_last()).tick(ticks.last().0, ticks.last().1)
        }
    }

    /// Whether a run of ticks is one that the game can go through: at each tick
    /// the counter has room, and the objects are some that the tick may bring.
    pub open spec fn admits_run(self, ticks: Seq<(InputSnapshot, Seq<FallingObject>)>) -> bool
        decreases ticks.len(),
    {
        if ticks.len() == 0 {
            true
        } else {
            let before = self.run(ticks.drop_last());
            &&& self.admits_run(ticks.drop_last())
            &&& before.can_tick()
            &&& before.admits(ticks.last().0, ticks.last().1)
        }
    }

    /// The game keeps its invariant from the start through every run of ticks:
    /// at all times every player in the roster is alive, with the box inside the
    /// field, and the leaderboard is ordered and within its capacity.
    pub proof fn lemma_run_wf(ticks: Seq<(InputSnapshot, Seq<FallingObject>)>)
        requires
            GameView::initial().admits_run(ticks),
        ensures
            GameView::initial().run(ticks).wf(),
            forall|i: int|
                0 <= i < GameView::initial().run(ticks).round.players.len() ==> {
                    &&& (#[trigger] GameView::initial().run(ticks).round.players[i]).health > 0
                    &&& 0 <= GameView::initial().run(ticks).round.players[i].position.x
                        <= FIELD_WIDTH - PLAYER_WIDTH
                },
            is_board(GameView::initial().run(ticks).leaderboard),
        decreases ticks.len(),
    {
        RoundView::lemma_fresh_wf(PlayerMode::Single);
        if ticks.len() > 0 {
            GameView::lemma_run_wf(ticks.drop_last());
            GameView::initial().run(ticks.drop_last()).lemma_tick_wf(
                ticks.last().0,
                ticks.last().1,
            );
        }
        GameView::initial().run(ticks).round.lemma_players_sound();
    }

    /// Whether the tick goes back from game over to the menu.
    pub open spec fn leaves_for_menu(self, inputs: InputSnapshot) -> bool {
        self.phase == GamePhase::GameOver && self.after_input(inputs).phase
            == GamePhase::ModeSelect
    }

    /// The difficulty never falls while a round is in play. The tick that starts
    /// a round leaves it at 1.0, and so does the tick that goes back to the menu;
    /// no other tick lets it fall.
    pub proof fn lemma_difficulty(self, inputs: InputSnapshot, spawned: Seq<FallingObject>)
        requires
            self.wf(),
            self.can_tick(),
        ensures
            self.phase == GamePhase::Playing ==> self.tick(inputs, spawned).round.schedule.difficulty
                >= self.round.schedule.difficulty,
            self.starts_round(inputs) ==> self.tick(inputs, spawned).round.schedule.difficulty
                == DIFFICULTY_ONE,
            self.tick(inputs, spawned).round.schedule.difficulty < self.round.schedule.difficulty
                ==> self.starts_round(inputs) || self.leaves_for_menu(inputs),
    {
        let acted = self.after_input(inputs);
        if acted.phase == GamePhase::Playing {
            acted.round.schedule.lemma_difficulty_bounds();
        }
    }
}

impl View for GameState {
    type V = GameView;

    closed spec fn view(&self) -> GameView {
        GameView {
            phase: self.phase,
            menu_selection: self.menu_selection,
            round: self.round@,
            name_entry: self.name_entry@,
            leaderboard: self.leaderboard@,
            menu_previous: self.menu_previous,
            name_previous: self.name_previous,
        }
    }
}

impl GameState {
    /// The invariant that the game keeps from tick to tick.
    pub open spec fn wf(&self) -> bool {
        self@.wf()
    }

    /// The game as it starts up: at the menu, with an empty leaderboard.
    pub fn new() -> (game: GameState)
        ensures
            game@ == GameView::initial(),
            game.wf(),
    {
        GameState {
            phase: GamePhase::ModeSelect,
            menu_selection: PlayerMode::Single,
            round: RoundState::idle(),
            name_entry: NameEntry::new(),
            leaderboard: Leaderboard::new(),
            menu_previous: InputSnapshot::empty(),
            name_previous: InputSnapshot::empty(),
        }
    }

    /// The phase that the game is in.
    pub fn phase(&self) -> (phase: GamePhase)
        ensures
            phase == self@.phase,
    {
        self.phase
    }

    /// The mode that the menu highlights.
    pub fn menu_selection(&self) -> (mode: PlayerMode)
        ensures
            mode == self@.menu_selection,
    {
        self.menu_selection
    }

    /// The round in play, or what is left of the last one.
    pub fn round(&self) -> (round: &RoundState)
        ensures
            round@ == self@.round,
    {
        &self.round
    }

    /// The state of name entry.
    pub fn name_entry(&self) -> (entry: &NameEntry)
        ensures
            entry@ == self@.name_entry,
    {
        &self.name_entry
    }

    /// The leaderboard.
    pub fn leaderboard(&self) -> (board: &Leaderboard)
        ensures
            board@ == self@.leaderboard,
    {
        &self.leaderboard
    }

    /// Tells whether the tick counter has room for the next tick: it has, unless
    /// a round has been in play for as many ticks as a `u32` counts.
    pub fn can_tick(&self) -> (room: bool)
        ensures
            room == self@.can_tick(),
    {
        !(self.phase == GamePhase::Playing) || self.round.schedule().tick_count < u32::MAX
    }

    /// Replaces the leaderboard by what storage holds. The stored entries are
    /// added one after the other to an empty board, so that a stored leaderboard
    /// comes back as it was and anything else still gives a leaderboard.
    pub fn load_leaderboard(&mut self, stored: &Vec<LeaderboardEntry>)
        requires
            old(self).wf(),
        ensures
            final(self)@ == (GameView {
                leaderboard: with_entries(Seq::empty(), stored@),
                ..old(self)@
            }),
            is_board(stored@) ==> final(self)@.leaderboard == stored@,
            final(self).wf(),
    {
        self.leaderboard = Leaderboard::restore(stored);
    }

    /// Adds an entry to the leaderboard, at its rank.
    pub fn add_to_leaderboard(&mut self, score: u64, mode: PlayerMode, name: Initials)
        requires
            old(self).wf(),
        ensures
            final(self)@ == (GameView {
                leaderboard: with_entry(
                    old(self)@.leaderboard,
                    (LeaderboardEntry { score, mode, name }),
                ),
                ..old(self)@
            }),
            final(self).wf(),
    {
        self.leaderboard.add_entry(score, mode, name);
    }

    /// Clears what a round leaves behind: the field, the scheduler, the final
    /// scores and name entry.
    pub fn reset_runtime(&mut self)
        requires
            old(self).wf(),
        ensures
            final(self)@ == (GameView {
                round: RoundView::idle(),
                name_entry: NameEntryView::idle(),
                ..old(self)@
            }),
            final(self).wf(),
    {
        self.round = RoundState::idle();
        self.name_entry = NameEntry::new();
    }

    /// Starts a round of the given mode.
    pub fn start_new_game(&mut self, mode: PlayerMode)
        requires
            old(self).wf(),
        ensures
            final(self)@ == old(self)@.started(mode),
            final(self).wf(),
            final(self)@.round.schedule.difficulty == DIFFICULTY_ONE,
    {
        self.reset_runtime();
        self.round = RoundState::new(mode);
        self.phase = GamePhase::Playing;
    }

    /// Goes back to the menu, with one player highlighted.
    pub fn back_to_menu(&mut self)
        requires
            old(self).wf(),
        ensures
            final(self)@ == old(self)@.at_menu(),
            final(self).wf(),
    {
        self.reset_runtime();
        self.phase = GamePhase::ModeSelect;
        self.menu_selection = PlayerMode::Single;
    }

    /// Ends the round: begins name entry for its final scores, or goes straight
    /// to game over where there are none.
    pub fn start_name_entry(&mut self)
        requires
            old(self).wf(),
        ensures
            final(self)@ == old(self)@.ended(),
            final(self).wf(),
    {
        if self.round.final_scores().len() == 0 {
            self.phase = GamePhase::GameOver;
        } else {
            self.name_entry = NameEntry::start(self.round.final_scores());
            self.phase = GamePhase::NameEntry;
        }
    }

    /// Lets name entry act on the presses of a tick. Tells whether a name was
    /// committed, so that the leaderboard has a new entry.
    pub fn handle_name_edges(&mut self, edges: &EdgeSet) -> (committed: bool)
        requires
            old(self).wf(),
        ensures
            final(self)@ == old(self)@.after_name_edges(*edges),
            final(self).wf(),
            committed == old(self)@.name_entry.commits(*edges),
    {
        match self.name_entry.apply(edges) {
            Some(pair) => {
                let mode: PlayerMode = self.round.mode();
                self.leaderboard.add_entry(pair.0.score, mode, pair.1);
                proof {
                    old(self)@.name_entry.pending.remove_ensures(0);
                }
                if self.name_entry.pending().len() == 0 {
                    self.phase = GamePhase::GameOver;
                }
                true
            },
            None => false,
        }
    }

    /// Lets name entry act on the snapshot of a tick. Tells whether a name was
    /// committed, so that the leaderboard has a new entry.
    pub fn handle_name_entry(&mut self, inputs: &InputSnapshot) -> (committed: bool)
        requires
            old(self).wf(),
        ensures
            final(self)@ == old(self)@.after_name_entry(*inputs),
            final(self).wf(),
            old(self)@.can_tick() ==> final(self)@.can_tick(),
            committed == old(self)@.name_entry.commits(
                EdgeSet::between(old(self)@.name_previous, *inputs),
            ),
    {
        let edges: EdgeSet = detect_edges(&self.name_previous, inputs);
        let committed: bool = self.handle_name_edges(&edges);
        let ghost named = self@;
        self.name_previous = *inputs;
        proof {
            old(self)@.lemma_after_name_entry(named, self@, *inputs);
        }
        committed
    }

    /// Moves the players of the round by the directions that are held.
    pub fn handle_moves(&mut self, inputs: &InputSnapshot)
        requires
            old(self).wf(),
        ensures
            final(self)@ == old(self)@.after_moves(*inputs),
            final(self).wf(),
            old(self)@.can_tick() ==> final(self)@.can_tick(),
    {
        let two: bool = self.round.mode() == PlayerMode::Two;
        if inputs.player1_left {
            self.round.move_player(0, -1);
        }
        if inputs.player1_right {
            self.round.move_player(0, 1);
        }
        if two && inputs.player2_left {
            self.round.move_player(1, -1);
        }
        if two && inputs.player2_right {
            self.round.move_player(1, 1);
        }
    }

    /// Lets the menu act on the presses of a tick.
    pub fn handle_menu(&mut self, edges: &EdgeSet)
        requires
            old(self).wf(),
        ensures
            final(self)@ == old(self)@.after_menu(*edges),
            final(self).wf(),
            old(self)@.can_tick() ==> final(self)@.can_tick(),
    {
        if edges.left {
            self.menu_selection = PlayerMode::Single;
        }
        if edges.right {
            self.menu_selection = PlayerMode::Two;
        }
        if edges.system_two_player {
            self.start_new_game(PlayerMode::Two);
        } else if edges.system_one_player {
            self.start_new_game(PlayerMode::Single);
        } else if edges.confirm {
            let mode: PlayerMode = self.menu_selection;
            self.start_new_game(mode);
        }
    }

    /// Lets game over act on the presses of a tick. Tells whether the game went
    /// back to the menu.
    pub fn handle_game_over(&mut self, edges: &EdgeSet) -> (left: bool)
        requires
            old(self).wf(),
        ensures
            final(self)@ == old(self)@.after_game_over(*edges),
            final(self).wf(),
            old(self)@.can_tick() ==> final(self)@.can_tick(),
            left == (!edges.system_two_player && !edges.system_one_player && edges.confirm),
    {
        if edges.system_two_player {
            self.start_new_game(PlayerMode::Two);
            false
        } else if edges.system_one_player {
            self.start_new_game(PlayerMode::Single);
            false
        } else if edges.confirm {
            self.back_to_menu();
            true
        } else {
            false
        }
    }

    /// Hands the snapshot of a tick to the current phase, and tells what the tick
    /// asks of storage.
    fn dispatch(&mut self, inputs: &InputSnapshot) -> (action: StorageAction)
        requires
            old(self).wf(),
        ensures
            final(self)@ == (match old(self)@.phase {
                GamePhase::ModeSelect => old(self)@.after_menu(
                    EdgeSet::between(old(self)@.menu_previous, *inputs),
                ),
                GamePhase::GameOver => old(self)@.after_game_over(
                    EdgeSet::between(old(self)@.menu_previous, *inputs),
                ),
                GamePhase::Playing => old(self)@.after_moves(*inputs),
                GamePhase::NameEntry => old(self)@.after_name_entry(*inputs),
            }),
            final(self).wf(),
            action == old(self)@.storage_action(*inputs),
            old(self)@.can_tick() ==> final(self)@.can_tick(),
    {
        let edges: EdgeSet = detect_edges(&self.menu_previous, inputs);
        let phase: GamePhase = self.phase;
        match phase {
            GamePhase::ModeSelect => {
                self.handle_menu(&edges);
                StorageAction::Nothing
            },
            GamePhase::GameOver => {
                if self.handle_game_over(&edges) {
                    StorageAction::Reload
                } else {
                    StorageAction::Nothing
                }
            },
            GamePhase::Playing => {
                self.handle_moves(inputs);
                StorageAction::Nothing
            },
            GamePhase::NameEntry => {
                if self.handle_name_entry(inputs) {
                    StorageAction::Save
                } else {
                    StorageAction::Nothing
                }
            },
        }
    }

    /// Lets the current phase act on the snapshot of a tick, and tells what the
    /// tick asks of storage.
    pub fn handle_input(&mut self, inputs: &InputSnapshot) -> (action: StorageAction)
        requires
            old(self).wf(),
        ensures
            final(self)@ == old(self)@.after_input(*inputs),
            final(self).wf(),
            action == old(self)@.storage_action(*inputs),
            old(self)@.can_tick() ==> final(self)@.can_tick(),
    {
        let action: StorageAction = self.dispatch(inputs);
        let ghost acted = self@;
        self.menu_previous = *inputs;
        proof {
            old(self)@.lemma_after_input(acted, self@, *inputs);
        }
        action
    }

    /// Moves the round, if one is in play, on by one tick that brings the
    /// objects `spawned`, and ends the round if nobody is left in it.
    pub fn update_with(&mut self, spawned: Vec<FallingObject>)
        requires
            old(self).wf(),
            old(self)@.can_tick(),
            old(self)@.phase == GamePhase::Playing ==> old(self)@.round.schedule.admits(spawned@),
        ensures
            final(self)@ == old(self)@.after_update(spawned@),
            final(self).wf(),
    {
        if self.phase == GamePhase::Playing {
            if self.round.step(spawned) {
                self.start_name_entry();
            }
        }
    }

    /// Moves the round, if one is in play, on by one tick, and ends the round if
    /// nobody is left in it.
    ///
    /// The new objects are drawn at random: the game ends up as `update_with`
    /// leaves it for one of the lists of objects that the scheduler admits.
    pub fn update(&mut self)
        requires
            old(self).wf(),
            old(self)@.can_tick(),
        ensures
            exists|spawned: Seq<FallingObject>|
                (old(self)@.phase == GamePhase::Playing ==> old(self)@.round.schedule.admits(
                    spawned,
                )) && final(self)@ == #[trigger] old(self)@.after_update(spawned),
            final(self).wf(),
    {
        if self.phase == GamePhase::Playing {
            let over: bool = self.round.update();
            let ghost spawned = choose|spawned: Seq<FallingObject>|
                old(self)@.round.schedule.admits(spawned) && self.round@ == #[trigger] old(
                    self,
                )@.round.step(spawned);
            if over {
                self.start_name_entry();
            }
            assert(self@ == old(self)@.after_update(spawned));
        } else {
            assert(self@ == old(self)@.after_update(Seq::empty()));
        }
    }

    /// One frame of the game with the objects `spawned` as those that the tick
    /// brings: the current phase acts on the snapshot, then the round moves on.
    /// Tells what the tick asks of storage.
    pub fn tick_with(&mut self, inputs: &InputSnapshot, spawned: Vec<FallingObject>) -> (action:
        StorageAction)
        requires
            old(self).wf(),
            old(self)@.can_tick(),
            old(self)@.admits(*inputs, spawned@),
        ensures
            final(self)@ == old(self)@.tick(*inputs, spawned@),
            final(self).wf(),
            action == old(self)@.storage_action(*inputs),
    {
        let action: StorageAction = self.handle_input(inputs);
        self.update_with(spawned);
        action
    }

    /// One frame of the game: the current phase acts on the snapshot, then the
    /// round moves on. Tells what the tick asks of storage.
    ///
    /// The new objects of the round are drawn at random: the game ends up as
    /// `tick_with` leaves it for one of the lists of objects that the round
    /// admits.
    pub fn tick(&mut self, inputs: &InputSnapshot) -> (action: StorageAction)
        requires
            old(self).wf(),
            old(self)@.can_tick(),
        ensures
            exists|spawned: Seq<FallingObject>|
                old(self)@.admits(*inputs, spawned) && final(self)@ == #[trigger] old(self)@.tick(
                    *inputs,
                    spawned,
                ),
            final(self).wf(),
            action == old(self)@.storage_action(*inputs),
    {
        let action: StorageAction = self.handle_input(inputs);
        let ghost acted = self@;
        self.update();
        proof {
            let spawned = choose|spawned: Seq<FallingObject>|
                (acted.phase == GamePhase::Playing ==> acted.round.schedule.admits(spawned))
                    && self@ == #[trigger] acted.after_update(spawned);
            assert(self@ == old(self)@.tick(*inputs, spawned));
        }
        action
    }
}

} // verus!
