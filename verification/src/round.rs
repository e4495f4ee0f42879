//! The state of one round: the players still in it, the objects on the field,
//! the spawn scheduler and the final scores of the players who are out.

use vstd::prelude::*;
use crate::actors::{
    spawn_limit, start_x, FallingObject, FinalScore, PlayerMode, PlayerSlot, Position,
};
use crate::collision::{
    eliminated, headroom, lemma_living_within, lemma_players_after_keeps,
    lemma_resolve_keeps_headroom, lemma_survivors_within, living, on_screen, players_after,
    resolve, slots_ascend, survivors,
};
use crate::config::{
    DIFFICULTY_ONE, FIELD_HEIGHT, FIELD_WIDTH, GOOD_DEAL_SCORE, MAX_PLAYERS, MAX_SPAWNS_PER_TICK,
    OBJECT_HEIGHT, PLAYER_SPEED, PLAYER_WIDTH,
};
use crate::schedule::{fall_distance, lemma_interval_exact, max_difficulty, Scheduler};

verus! {

/// A round in play.
pub struct RoundState {
    mode: PlayerMode,
    players: Vec<PlayerSlot>,
    objects: Vec<FallingObject>,
    schedule: Scheduler,
    final_scores: Vec<FinalScore>,
}

/// What a round holds, as plain mathematical values.
pub struct RoundView {
    pub mode: PlayerMode,
    /// The players still in the round, in the order of their slots.
    pub players: Seq<PlayerSlot>,
    pub objects: Seq<FallingObject>,
    pub schedule: Scheduler,
    /// The scores of the players who are out, in the order in which they went.
    pub final_scores: Seq<FinalScore>,
}

/// The most points that a player can have after `tick_count` ticks.
pub open spec fn score_limit(tick_count: nat) -> int {
    GOOD_DEAL_SCORE * MAX_SPAWNS_PER_TICK * tick_count
}

/// The lowest that an object can be found after a fall, before those that have
/// left the field are taken out.
pub open spec fn fall_reach() -> int {
    FIELD_HEIGHT + fall_distance(max_difficulty())
}

impl RoundView {
    /// The invariant of a round, with objects no lower than `reach`.
    ///
    /// Every player in the roster is alive and inside the field, the slots are
    /// distinct and belong to the mode, every object is inside the width of the
    /// field, and the scores leave room for every object to be caught.
    pub open spec fn wf_within(self, reach: int) -> bool {
        &&& self.schedule.wf()
        &&& forall|i: int|
            0 <= i < self.players.len() ==> {
                &&& (#[trigger] self.players[i]).alive()
                &&& self.players[i].in_field()
                &&& self.players[i].slot_index < self.mode.count()
            }
        &&& slots_ascend(self.players)
        &&& forall|i: int|
            0 <= i < self.objects.len() ==> {
                &&& 0 <= (#[trigger] self.objects[i]).position.x < spawn_limit()
                &&& -OBJECT_HEIGHT <= self.objects[i].position.y < reach
            }
        &&& headroom(self.players, self.objects.len(), score_limit(self.schedule.tick_count as nat))
    }

    /// The invariant of a round between two ticks: every object is on the field.
    pub open spec fn wf(self) -> bool {
        self.wf_within(FIELD_HEIGHT as int)
    }

    /// The invariant of a round whose objects have just fallen.
    pub open spec fn wf_fallen(self) -> bool {
        self.wf_within(fall_reach())
    }

    /// A round of the given mode as it begins.
    pub open spec fn fresh(mode: PlayerMode) -> RoundView {
        RoundView {
            mode,
            players: Seq::new(
                mode.count(),
                |i: int| PlayerSlot::fresh(i, mode.count() as int),
            ),
            objects: Seq::empty(),
            schedule: Scheduler::fresh(),
            final_scores: Seq::empty(),
        }
    }

    /// No round: nobody plays and nothing falls.
    pub open spec fn idle() -> RoundView {
        RoundView {
            mode: PlayerMode::Single,
            players: Seq::empty(),
            objects: Seq::empty(),
            schedule: Scheduler::fresh(),
            final_scores: Seq::empty(),
        }
    }

    /// Nobody is left in the round.
    pub open spec fn over(self) -> bool {
        self.players.len() == 0
    }

    /// The round after the player of the given slot, if still in it, has moved.
    pub open spec fn with_move(self, slot_index: usize, dx: int) -> RoundView {
        RoundView {
            players: self.players.map_values(
                |player: PlayerSlot|
                    if player.slot_index == slot_index && player.alive() {
                        player.moved(dx)
                    } else {
                        player
                    },
            ),
            ..self
        }
    }

    /// The round with its scheduler one tick on.
    pub open spec fn scheduled(self) -> RoundView {
        RoundView { schedule: self.schedule.advanced(), ..self }
    }

    /// The round with new objects behind those that it has.
    pub open spec fn joined(self, spawned: Seq<FallingObject>) -> RoundView {
        RoundView { objects: self.objects + spawned, ..self }
    }

    /// The round after every object has fallen by what the difficulty gives.
    pub open spec fn fallen(self) -> RoundView {
        RoundView {
            objects: self.objects.map_values(
                |object: FallingObject|
                    object.lowered(fall_distance(self.schedule.difficulty as nat)),
            ),
            ..self
        }
    }

    /// The round after its collisions are settled: the objects that were caught
    /// or have left the field are gone, and the players who are out of health
    /// have left the roster for the list of final scores.
    pub open spec fn resolved(self) -> RoundView {
        let struck = players_after(self.players, self.objects);
        RoundView {
            players: living(struck),
            objects: on_screen(survivors(self.players, self.objects)),
            final_scores: self.final_scores + eliminated(struck),
            ..self
        }
    }

    /// The round one tick later, where the tick brings the objects `spawned`:
    /// the scheduler moves on, the new objects join, all objects fall, and the
    /// collisions are settled.
    pub open spec fn step(self, spawned: Seq<FallingObject>) -> RoundView {
        self.scheduled().joined(spawned).fallen().resolved()
    }

    /// A round as it begins keeps the invariant.
    pub proof fn lemma_fresh_wf(mode: PlayerMode)
        ensures
            RoundView::fresh(mode).wf(),
            RoundView::idle().wf(),
            RoundView::fresh(mode).schedule.difficulty == DIFFICULTY_ONE,
    {
        lemma_interval_exact(DIFFICULTY_ONE as nat);
        let round = RoundView::fresh(mode);
        assert forall|i: int| 0 <= i < round.players.len() implies {
            &&& (#[trigger] round.players[i]).alive()
            &&& round.players[i].in_field()
            &&& round.players[i].slot_index < mode.count()
        } by {
            let total = mode.count() as int;
            if total == 1 {
                assert(start_x(0, 1) == 750);
            } else if i == 0 {
                assert(start_x(0, 2) == 475);
            } else {
                assert(start_x(1, 2) == 1025);
            }
        }
    }

    /// A move leaves the invariant in place: the player stays inside the field.
    pub proof fn lemma_with_move_wf(self, slot_index: usize, dx: int)
        requires
            self.wf(),
        ensures
            self.with_move(slot_index, dx).wf(),
            self.with_move(slot_index, dx).schedule == self.schedule,
    {
        let after = self.with_move(slot_index, dx);
        assert forall|i: int| 0 <= i < after.players.len() implies {
            &&& (#[trigger] after.players[i]).alive()
            &&& after.players[i].in_field()
            &&& after.players[i].slot_index < self.mode.count()
            &&& after.players[i].slot_index == self.players[i].slot_index
            &&& after.players[i].score + GOOD_DEAL_SCORE * after.objects.len() <= score_limit(
                after.schedule.tick_count as nat,
            )
        } by {
            assert(self.players[i].alive());
            assert(self.players[i].score + GOOD_DEAL_SCORE * self.objects.len() <= score_limit(
                self.schedule.tick_count as nat,
            ));
        }
        assert(slots_ascend(after.players)) by {
            assert forall|a: int, b: int| 0 <= a < b < after.players.len() implies (
            #[trigger] after.players[a]).slot_index < (#[trigger] after.players[b]).slot_index by {
                assert(self.players[a].slot_index < self.players[b].slot_index);
            }
        }
    }

    /// The scheduler's tick and the objects that it admits leave the invariant in
    /// place.
    pub proof fn lemma_joined_wf(self, spawned: Seq<FallingObject>)
        requires
            self.wf(),
            self.schedule.tick_count < u32::MAX,
            self.schedule.admits(spawned),
        ensures
            self.scheduled().joined(spawned).wf(),
            self.scheduled().schedule.difficulty >= self.schedule.difficulty,
    {
        self.schedule.lemma_due_bounded();
        self.schedule.lemma_difficulty_bounds();
        self.schedule.lemma_advanced_wf();
        let now = self.scheduled().joined(spawned);
        assert(score_limit(now.schedule.tick_count as nat) == score_limit(
            self.schedule.tick_count as nat,
        ) + GOOD_DEAL_SCORE * MAX_SPAWNS_PER_TICK) by (nonlinear_arith)
            requires
                now.schedule.tick_count == self.schedule.tick_count + 1,
        ;
        assert forall|k: int| 0 <= k < now.players.len() implies (#[trigger] now.players[k]).score
            + GOOD_DEAL_SCORE * now.objects.len() <= score_limit(
            now.schedule.tick_count as nat,
        ) by {
            assert(self.players[k].score + GOOD_DEAL_SCORE * self.objects.len() <= score_limit(
                self.schedule.tick_count as nat,
            ));
        }
        assert forall|k: int| 0 <= k < now.objects.len() implies {
            &&& 0 <= (#[trigger] now.objects[k]).position.x < spawn_limit()
            &&& -OBJECT_HEIGHT <= now.objects[k].position.y < FIELD_HEIGHT
        } by {
            if k < self.objects.len() {
                assert(now.objects[k] == self.objects[k]);
            } else {
                assert(now.objects[k] == spawned[k - self.objects.len()]);
                assert(spawned[k - self.objects.len()].is_fresh());
            }
        }
    }

    /// A fall leaves the objects above the reach of a fall.
    pub proof fn lemma_fallen_wf(self)
        requires
            self.wf(),
        ensures
            self.fallen().wf_fallen(),
    {
        let after = self.fallen();
        let distance = fall_distance(self.schedule.difficulty as nat);
        assert(0 <= distance <= fall_distance(max_difficulty())) by {
            assert(self.schedule.difficulty <= max_difficulty());
        }
        assert forall|k: int| 0 <= k < after.objects.len() implies {
            &&& 0 <= (#[trigger] after.objects[k]).position.x < spawn_limit()
            &&& -OBJECT_HEIGHT <= after.objects[k].position.y < fall_reach()
        } by {
            assert(0 <= self.objects[k].position.x < spawn_limit());
        }
    }

    /// A tick that brings objects that the scheduler admits leaves the invariant
    /// in place, and the difficulty no lower than it was.
    pub proof fn lemma_step_wf(self, spawned: Seq<FallingObject>)
        requires
            self.wf(),
            self.schedule.tick_count < u32::MAX,
            self.schedule.admits(spawned),
        ensures
            self.step(spawned).wf(),
            self.step(spawned).schedule.difficulty >= self.schedule.difficulty,
            self.step(spawned).mode == self.mode,
    {
        self.lemma_joined_wf(spawned);
        self.scheduled().joined(spawned).lemma_fallen_wf();
        self.scheduled().joined(spawned).fallen().lemma_resolved_wf();
    }

    /// In a round that keeps the invariant every player of the roster is alive,
    /// with the box inside the field.
    pub proof fn lemma_players_sound(self)
        requires
            self.wf(),
        ensures
            forall|i: int|
                0 <= i < self.players.len() ==> {
                    &&& (#[trigger] self.players[i]).health > 0
                    &&& 0 <= self.players[i].position.x <= FIELD_WIDTH - PLAYER_WIDTH
                },
    {
    }

    /// Settling the collisions of a round whose objects have fallen gives a round
    /// that keeps the invariant.
    pub proof fn lemma_resolved_wf(self)
        requires
            self.wf_fallen(),
        ensures
            self.resolved().wf(),
    {
        let struck = players_after(self.players, self.objects);
        let kept = survivors(self.players, self.objects);
        let limit = score_limit(self.schedule.tick_count as nat);
        assert(limit <= u64::MAX) by (nonlinear_arith)
            requires
                limit == GOOD_DEAL_SCORE * MAX_SPAWNS_PER_TICK * (self.schedule.tick_count as nat),
                self.schedule.tick_count <= u32::MAX,
                GOOD_DEAL_SCORE == 10,
                MAX_SPAWNS_PER_TICK == 300_000,
        ;
        lemma_players_after_keeps(self.players, self.objects);
        lemma_resolve_keeps_headroom(self.players, self.objects, limit);
        lemma_survivors_within(self.players, self.objects);
        lemma_living_within(struck);
        let after = self.resolved();
        kept.lemma_filter_len(|object: FallingObject| object.on_screen());
        assert(slots_ascend(struck)) by {
            assert forall|i: int, j: int| 0 <= i < j < struck.len() implies (
            #[trigger] struck[i]).slot_index < (#[trigger] struck[j]).slot_index by {
                assert(self.players[i].slot_index < self.players[j].slot_index);
            }
        }
        assert forall|i: int| 0 <= i < after.players.len() implies {
            &&& (#[trigger] after.players[i]).alive()
            &&& after.players[i].in_field()
            &&& after.players[i].slot_index < self.mode.count()
            &&& after.players[i].score + GOOD_DEAL_SCORE * after.objects.len() <= limit
        } by {
            let at = choose|at: int| 0 <= at < struck.len() && struck[at] == after.players[i];
            assert(self.players[at].in_field());
            assert(struck[at].score + GOOD_DEAL_SCORE * kept.len() <= limit);
            assert(GOOD_DEAL_SCORE * after.objects.len() <= GOOD_DEAL_SCORE * kept.len());
        }
        assert forall|i: int| 0 <= i < after.objects.len() implies {
            &&& 0 <= (#[trigger] after.objects[i]).position.x < spawn_limit()
            &&& -OBJECT_HEIGHT <= after.objects[i].position.y < FIELD_HEIGHT
        } by {
            kept.lemma_filter_pred(|object: FallingObject| object.on_screen(), i);
            kept.lemma_filter_contains_rev(
                |object: FallingObject| object.on_screen(),
                after.objects[i],
            );
            let at = choose|at: int| 0 <= at < kept.len() && kept[at] == after.objects[i];
            assert(self.objects.contains(kept[at]));
            let from = choose|from: int|
                0 <= from < self.objects.len() && self.objects[from] == kept[at];
            assert(0 <= self.objects[from].position.x < spawn_limit());
        }
    }
}


impl View for RoundState {
    type V = RoundView;

    closed spec fn view(&self) -> RoundView {
        RoundView {
            mode: self.mode,
            players: self.players@,
            objects: self.objects@,
            schedule: self.schedule,
            final_scores: self.final_scores@,
        }
    }
}

impl RoundState {
    /// The invariant that every round keeps between two ticks.
    pub open spec fn wf(&self) -> bool {
        self@.wf()
    }

    /// Starts a round of the given mode: the players stand evenly spaced with
    /// full health and no points, nothing is on the field, and the difficulty is
    /// 1.0.
    pub fn new(mode: PlayerMode) -> (round: RoundState)
        ensures
            round@ == RoundView::fresh(mode),
            round.wf(),
            round@.schedule.difficulty == DIFFICULTY_ONE,
    {
        let total: usize = mode.player_count();
        let mut players: Vec<PlayerSlot> = Vec::new();
        let mut index: usize = 0;
        while index < total
            invariant
                index <= total <= MAX_PLAYERS,
                players@.len() == index,
                forall|i: int|
                    0 <= i < index ==> {
                        &&& (#[trigger] players@[i]) == PlayerSlot::fresh(i, total as int)
                        &&& players@[i].alive()
                        &&& players@[i].in_field()
                    },
            decreases total - index,
        {
            players.push(PlayerSlot::new(index, total));
            index = index + 1;
        }
        let round = RoundState {
            mode,
            players,
            objects: Vec::new(),
            schedule: Scheduler::new(),
            final_scores: Vec::new(),
        };
        assert(round@.players =~= RoundView::fresh(mode).players);
        round
    }

    /// A round that nobody plays, for the time between rounds.
    pub fn idle() -> (round: RoundState)
        ensures
            round@ == RoundView::idle(),
            round.wf(),
    {
        RoundState {
            mode: PlayerMode::Single,
            players: Vec::new(),
            objects: Vec::new(),
            schedule: Scheduler::new(),
            final_scores: Vec::new(),
        }
    }

    /// The mode of the round.
    pub fn mode(&self) -> (mode: PlayerMode)
        ensures
            mode == self@.mode,
    {
        self.mode
    }

    /// The players still in the round, in the order of their slots.
    pub fn players(&self) -> (players: &Vec<PlayerSlot>)
        ensures
            players@ == self@.players,
    {
        &self.players
    }

    /// The objects on the field.
    pub fn objects(&self) -> (objects: &Vec<FallingObject>)
        ensures
            objects@ == self@.objects,
    {
        &self.objects
    }

    /// The spawn scheduler.
    pub fn schedule(&self) -> (schedule: Scheduler)
        ensures
            schedule == self@.schedule,
    {
        self.schedule
    }

    /// The final scores of the players who are out, in the order in which they
    /// went.
    pub fn final_scores(&self) -> (scores: &Vec<FinalScore>)
        ensures
            scores@ == self@.final_scores,
    {
        &self.final_scores
    }

    /// Tells whether nobody is left in the round.
    pub fn is_over(&self) -> (over: bool)
        ensures
            over == self@.over(),
    {
        self.players.len() == 0
    }

    /// Moves the player of the given slot, if still in the round, by `dx` steps
    /// of the player speed, and keeps the box inside the field.
    pub fn move_player(&mut self, slot_index: usize, dx: i32)
        requires
            old(self).wf(),
        ensures
            final(self)@ == old(self)@.with_move(slot_index, dx as int),
            final(self).wf(),
    {
        let ghost before = self@;
        let mut i: usize = 0;
        while i < self.players.len()
            invariant
                i <= self.players@.len(),
                self@ == before,
                before == old(self)@,
                before.wf(),
                forall|k: int|
                    0 <= k < i ==> (#[trigger] before.players[k]).slot_index != slot_index,
            decreases self.players@.len() - i,
        {
            let player: PlayerSlot = self.players[i];
            if player.slot_index == slot_index && player.health > 0 {
                let target: i64 = player.position.x as i64 + dx as i64 * PLAYER_SPEED as i64;
                let limit: i64 = (FIELD_WIDTH - PLAYER_WIDTH) as i64;
                let x: i64 = if target < 0 {
                    0
                } else if target > limit {
                    limit
                } else {
                    target
                };
                self.players[i] = PlayerSlot {
                    slot_index: player.slot_index,
                    position: Position { x: x as i32, y: player.position.y },
                    score: player.score,
                    health: player.health,
                };
                proof {
                    let after = before.with_move(slot_index, dx as int);
                    assert forall|k: int| 0 <= k < before.players.len() implies after.players[k]
                        == #[trigger] self.players@[k] by {
                        if k != i {
                            if k < i {
                                assert(before.players[k].slot_index != slot_index);
                            } else {
                                assert(before.players[i as int].slot_index
                                    < before.players[k].slot_index);
                            }
                        }
                    }
                    assert(self@.players =~= after.players);
                    before.lemma_with_move_wf(slot_index, dx as int);
                }
                return ;
            }
            i = i + 1;
        }
        proof {
            let after = before.with_move(slot_index, dx as int);
            assert(after.players =~= before.players);
            before.lemma_with_move_wf(slot_index, dx as int);
        }
    }

    /// Lets every object fall by what the difficulty gives.
    pub fn fall(&mut self)
        requires
            old(self).wf(),
        ensures
            final(self)@ == old(self)@.fallen(),
            final(self)@.wf_fallen(),
    {
        let ghost before = self@;
        let distance: i32 = self.schedule.fall_step();
        let mut i: usize = 0;
        while i < self.objects.len()
            invariant
                i <= self.objects@.len(),
                self.objects@.len() == before.objects.len(),
                before.wf(),
                self@.mode == before.mode,
                self@.players == before.players,
                self@.schedule == before.schedule,
                self@.final_scores == before.final_scores,
                distance == fall_distance(before.schedule.difficulty as nat),
                0 < distance <= fall_distance(max_difficulty()),
                forall|k: int|
                    0 <= k < i ==> #[trigger] self.objects@[k] == before.objects[k].lowered(
                        distance as int,
                    ),
                forall|k: int| i <= k < self.objects@.len() ==> self.objects@[k] == before.objects[k],
            decreases self.objects@.len() - i,
        {
            let object: FallingObject = self.objects[i];
            assert(before.objects[i as int].position.y < FIELD_HEIGHT);
            self.objects[i] = FallingObject {
                position: Position { x: object.position.x, y: object.position.y + distance },
                kind: object.kind,
            };
            i = i + 1;
        }
        proof {
            assert(self@.objects =~= before.fallen().objects);
            before.lemma_fallen_wf();
        }
    }

    /// Settles the collisions of the tick: lets each object come down on the
    /// players, takes out the objects that were caught or have left the field,
    /// and moves the players who are out of health from the roster to the final
    /// scores. Tells whether nobody is left.
    pub fn check_collisions(&mut self) -> (over: bool)
        requires
            old(self)@.wf_fallen(),
        ensures
            final(self)@ == old(self)@.resolved(),
            final(self).wf(),
            over == final(self)@.over(),
    {
        proof {
            self@.lemma_resolved_wf();
            let limit = score_limit(self@.schedule.tick_count as nat);
            assert(limit <= u64::MAX) by (nonlinear_arith)
                requires
                    limit == GOOD_DEAL_SCORE * MAX_SPAWNS_PER_TICK * (
                    self@.schedule.tick_count as nat),
                    self@.schedule.tick_count <= u32::MAX,
                    GOOD_DEAL_SCORE == 10,
                    MAX_SPAWNS_PER_TICK == 300_000,
            ;
        }
        let mut out: Vec<FinalScore> = resolve(&mut self.players, &mut self.objects);
        self.final_scores.append(&mut out);
        self.players.len() == 0
    }

    /// Moves the round on by one tick that brings the objects `spawned`: the
    /// scheduler moves on, the new objects join those on the field, all of them
    /// fall, and the collisions are settled. Tells whether the round is over.
    pub fn step(&mut self, spawned: Vec<FallingObject>) -> (over: bool)
        requires
            old(self).wf(),
            old(self)@.schedule.tick_count < u32::MAX,
            old(self)@.schedule.admits(spawned@),
        ensures
            final(self)@ == old(self)@.step(spawned@),
            final(self).wf(),
            over == final(self)@.over(),
            final(self)@.schedule.difficulty >= old(self)@.schedule.difficulty,
    {
        let ghost before = self@;
        let ghost brought = spawned@;
        let mut spawned = spawned;
        let _ = self.schedule.tick();
        self.objects.append(&mut spawned);
        proof {
            assert(self@ == before.scheduled().joined(brought));
            before.lemma_joined_wf(brought);
        }
        self.fall();
        self.check_collisions()
    }

    /// Moves the round on by one tick: the scheduler moves on and brings its new
    /// objects, all objects fall, and the collisions are settled. Tells whether
    /// the round is over.
    ///
    /// The new objects are drawn at random: the round ends up as `step` leaves
    /// it for one of the lists of objects that the scheduler admits.
    pub fn update(&mut self) -> (over: bool)
        requires
            old(self).wf(),
            old(self)@.schedule.tick_count < u32::MAX,
        ensures
            exists|spawned: Seq<FallingObject>|
                old(self)@.schedule.admits(spawned) && final(self)@ == #[trigger] old(self)@.step(
                    spawned,
                ),
            final(self).wf(),
            over == final(self)@.over(),
            final(self)@.schedule.difficulty >= old(self)@.schedule.difficulty,
    {
        let mut peek: Scheduler = self.schedule;
        let spawned: Vec<FallingObject> = peek.advance();
        let ghost brought = spawned@;
        let over: bool = self.step(spawned);
        assert(self@ == old(self)@.step(brought));
        over
    }
}

} // verus!
