//! The difficulty curve and the spawn schedule.

use vstd::prelude::*;
use vstd::arithmetic::div_mod::{lemma_div_is_ordered_by_denominator, lemma_fundamental_div_mod};
use crate::actors::FallingObject;
use crate::config::{
    BASE_GOOD_CHANCE, BASE_SPAWN_INTERVAL, DIFFICULTY_ONE, DIFFICULTY_PERIOD, DIFFICULTY_STEP,
    EXTRA_SPAWN_DIFFICULTY, EXTRA_SPAWN_ODDS, FIELD_WIDTH, GOOD_CHANCE_DROP, MAX_SPAWNS_PER_TICK,
    METER_ONE, MIN_GOOD_CHANCE, MIN_SPAWN_INTERVAL, OBJECT_SPEED, OBJECT_WIDTH, PERCENT,
};
use crate::random::{random_below, random_ratio};

verus! {

/// The difficulty multiplier, in fifths, after `tick_count` ticks of a round: it
/// starts at 1.0 and gains 0.2 with every full period.
pub open spec fn difficulty_at(tick_count: nat) -> nat {
    DIFFICULTY_ONE as nat + DIFFICULTY_STEP as nat * (tick_count / DIFFICULTY_PERIOD as nat)
}

/// The largest difficulty a round can reach.
pub open spec fn max_difficulty() -> nat {
    difficulty_at(u32::MAX as nat)
}

/// What the spawn meter gains in one tick: the difficulty multiplier itself.
pub open spec fn spawn_fill(difficulty: nat) -> nat {
    difficulty * (METER_ONE as nat / DIFFICULTY_ONE as nat)
}

/// What the spawn meter loses for each spawn: the base interval divided by the
/// difficulty multiplier, but never less than the smallest interval.
pub open spec fn effective_interval(difficulty: nat) -> nat {
    let scaled = BASE_SPAWN_INTERVAL as nat * METER_ONE as nat * DIFFICULTY_ONE as nat / difficulty;
    if scaled < MIN_SPAWN_INTERVAL as nat * METER_ONE as nat {
        MIN_SPAWN_INTERVAL as nat * METER_ONE as nat
    } else {
        scaled
    }
}

/// Distance that objects fall in one tick: the base speed times the difficulty
/// multiplier.
pub open spec fn fall_distance(difficulty: nat) -> int {
    OBJECT_SPEED * difficulty / DIFFICULTY_ONE as int
}

/// Chance, in percent, that a new object is a good deal: it drops as the
/// difficulty rises, down to a floor.
pub open spec fn good_chance(difficulty: nat) -> nat {
    let drop = GOOD_CHANCE_DROP as nat * (difficulty - DIFFICULTY_ONE) as nat;
    if drop + MIN_GOOD_CHANCE as nat >= BASE_GOOD_CHANCE as nat {
        MIN_GOOD_CHANCE as nat
    } else {
        (BASE_GOOD_CHANCE as nat - drop) as nat
    }
}

/// The units of the meter make the spawn interval exact: times the multiplier it
/// gives back the base interval, unless the floor has taken over.
pub proof fn lemma_interval_exact(difficulty: nat)
    requires
        DIFFICULTY_ONE <= difficulty,
    ensures
        MIN_SPAWN_INTERVAL * METER_ONE <= effective_interval(difficulty) <= BASE_SPAWN_INTERVAL
            * METER_ONE,
        effective_interval(difficulty) == MIN_SPAWN_INTERVAL * METER_ONE
            || effective_interval(difficulty) * difficulty == BASE_SPAWN_INTERVAL * METER_ONE
            * DIFFICULTY_ONE,
        effective_interval(difficulty) * difficulty >= BASE_SPAWN_INTERVAL * METER_ONE
            * DIFFICULTY_ONE,
{
    let whole: int = BASE_SPAWN_INTERVAL as int * METER_ONE as int * DIFFICULTY_ONE as int;
    assert(whole == 5_819_814_000);
    let scaled = whole / difficulty as int;
    if difficulty <= 22 {
        assert(whole % (difficulty as int) == 0) by {
            assert(whole % 5 == 0 && whole % 6 == 0 && whole % 7 == 0 && whole % 8 == 0);
            assert(whole % 9 == 0 && whole % 10 == 0 && whole % 11 == 0 && whole % 12 == 0);
            assert(whole % 13 == 0 && whole % 14 == 0 && whole % 15 == 0 && whole % 16 == 0);
            assert(whole % 17 == 0 && whole % 18 == 0 && whole % 19 == 0 && whole % 20 == 0);
            assert(whole % 21 == 0 && whole % 22 == 0);
        }
        lemma_fundamental_div_mod(whole, difficulty as int);
        assert(scaled * difficulty == whole) by (nonlinear_arith)
            requires
                whole == difficulty * scaled + 0,
        ;
        lemma_div_is_ordered_by_denominator(whole, difficulty as int, 22);
        lemma_div_is_ordered_by_denominator(whole, 5, difficulty as int);
        assert(whole / 22 == 264_537_000);
        assert(whole / 5 == 1_163_962_800);
    } else {
        lemma_div_is_ordered_by_denominator(whole, 23, difficulty as int);
        assert(whole / 23 == 253_035_391);
        assert(effective_interval(difficulty) == 258_658_400);
        assert(258_658_400 * difficulty >= whole) by (nonlinear_arith)
            requires
                difficulty >= 23,
                whole == 5_819_814_000,
        ;
    }
}

/// The units of length make the fall exact: it is the base speed times the
/// multiplier.
pub proof fn lemma_fall_exact(difficulty: nat)
    ensures
        fall_distance(difficulty) * DIFFICULTY_ONE == OBJECT_SPEED * difficulty,
        fall_distance(difficulty) == 3 * difficulty,
{
}


/// The spawn scheduler of a round: the tick counter, the difficulty multiplier
/// in fifths and the spawn meter.
#[derive(Clone, Copy, Debug, PartialEq, Eq, Structural)]
pub struct Scheduler {
    pub tick_count: u32,
    pub difficulty: u32,
    pub spawn_meter: u64,
}

impl Scheduler {
    /// The difficulty follows from the tick count, and the meter holds less than
    /// one interval.
    pub open spec fn wf(self) -> bool {
        &&& self.difficulty == difficulty_at(self.tick_count as nat)
        &&& self.spawn_meter < effective_interval(self.difficulty as nat)
    }

    /// The scheduler as a round begins.
    pub open spec fn fresh() -> Scheduler {
        Scheduler { tick_count: 0, difficulty: DIFFICULTY_ONE, spawn_meter: 0 }
    }

    /// The difficulty during the next tick.
    pub open spec fn next_difficulty(self) -> nat {
        difficulty_at((self.tick_count + 1) as nat)
    }

    /// The meter of the next tick once it is filled, before any spawn empties it.
    pub open spec fn filled_meter(self) -> nat {
        self.spawn_meter as nat + spawn_fill(self.next_difficulty())
    }

    /// Number of spawns that the next tick owes: one for each whole interval that
    /// the filled meter holds.
    pub open spec fn due(self) -> nat {
        self.filled_meter() / effective_interval(self.next_difficulty())
    }

    /// The scheduler one tick later.
    pub open spec fn advanced(self) -> Scheduler {
        Scheduler {
            tick_count: (self.tick_count + 1) as u32,
            difficulty: self.next_difficulty() as u32,
            spawn_meter: (self.filled_meter() % effective_interval(self.next_difficulty())) as u64,
        }
    }

    /// The objects that the next tick may bring: one for each spawn that is due,
    /// from difficulty 2.0 on up to one more for each, and all of them just
    /// above the field.
    pub open spec fn admits(self, spawned: Seq<FallingObject>) -> bool {
        &&& self.due() <= spawned.len()
        &&& spawned.len() <= if self.next_difficulty() >= EXTRA_SPAWN_DIFFICULTY {
            2 * self.due()
        } else {
            self.due()
        }
        &&& forall|i: int| 0 <= i < spawned.len() ==> (#[trigger] spawned[i]).is_fresh()
    }

    /// The difficulty stays within what a `u32` tick counter can reach, and never
    /// falls from one tick to the next.
    pub proof fn lemma_difficulty_bounds(self)
        requires
            self.wf(),
            self.tick_count < u32::MAX,
        ensures
            DIFFICULTY_ONE <= self.difficulty <= self.next_difficulty() <= max_difficulty(),
            self.next_difficulty() <= self.difficulty + DIFFICULTY_STEP,
            max_difficulty() == 7_158_283,
    {
    }

    /// A tick leaves the scheduler's invariant in place.
    pub proof fn lemma_advanced_wf(self)
        requires
            self.wf(),
            self.tick_count < u32::MAX,
        ensures
            self.advanced().wf(),
            self.advanced().tick_count == self.tick_count + 1,
            self.advanced().difficulty == self.next_difficulty(),
    {
        self.lemma_difficulty_bounds();
        let next = self.next_difficulty();
        lemma_interval_exact(next);
        let interval = effective_interval(next) as int;
        lemma_fundamental_div_mod(self.filled_meter() as int, interval);
        vstd::arithmetic::div_mod::lemma_mod_bound(self.filled_meter() as int, interval);
    }

    /// No tick owes more than half of `MAX_SPAWNS_PER_TICK` spawns, so that no
    /// tick brings more than `MAX_SPAWNS_PER_TICK` objects.
    pub proof fn lemma_due_bounded(self)
        requires
            self.wf(),
            self.tick_count < u32::MAX,
        ensures
            2 * self.due() <= MAX_SPAWNS_PER_TICK,
            forall|spawned: Seq<FallingObject>| #[trigger]
                self.admits(spawned) ==> spawned.len() <= MAX_SPAWNS_PER_TICK,
    {
        self.lemma_difficulty_bounds();
        let next = self.next_difficulty();
        let interval = effective_interval(next) as int;
        let filled = self.filled_meter() as int;
        lemma_interval_exact(self.difficulty as nat);
        lemma_interval_exact(next);
        lemma_fundamental_div_mod(filled, interval);
        let due = filled / interval;
        assert(interval * due <= filled);
        assert(due <= 150_000) by (nonlinear_arith)
            requires
                interval * due <= filled,
                interval >= 258_658_400,
                filled < 1_163_962_800 + 7_158_283 * 5_173_168,
        ;
    }

    /// A scheduler for a new round.
    pub fn new() -> (scheduler: Scheduler)
        ensures
            scheduler == Scheduler::fresh(),
            scheduler.wf(),
    {
        proof {
            lemma_interval_exact(DIFFICULTY_ONE as nat);
        }
        Scheduler { tick_count: 0, difficulty: DIFFICULTY_ONE, spawn_meter: 0 }
    }

    /// The spawn interval at the given difficulty.
    pub fn interval_at(difficulty: u32) -> (interval: u64)
        requires
            DIFFICULTY_ONE <= difficulty,
        ensures
            interval == effective_interval(difficulty as nat),
    {
        let whole: u64 = BASE_SPAWN_INTERVAL * METER_ONE;
        assert(whole == 1_163_962_800);
        let scaled: u64 = whole * (DIFFICULTY_ONE as u64) / (difficulty as u64);
        if scaled < MIN_SPAWN_INTERVAL * METER_ONE {
            MIN_SPAWN_INTERVAL * METER_ONE
        } else {
            scaled
        }
    }

    /// Distance that objects fall in one tick at the current difficulty.
    pub fn fall_step(&self) -> (distance: i32)
        requires
            self.wf(),
        ensures
            distance == fall_distance(self.difficulty as nat),
            0 < distance <= fall_distance(max_difficulty()),
    {
        OBJECT_SPEED / (DIFFICULTY_ONE as i32) * (self.difficulty as i32)
    }

    /// Chance, in percent, that an object spawned at the given difficulty is a
    /// good deal.
    pub fn good_chance_at(difficulty: u32) -> (percent: u32)
        requires
            DIFFICULTY_ONE <= difficulty,
        ensures
            percent == good_chance(difficulty as nat),
            MIN_GOOD_CHANCE <= percent <= BASE_GOOD_CHANCE,
    {
        let steps: u32 = difficulty - DIFFICULTY_ONE;
        if steps >= (BASE_GOOD_CHANCE - MIN_GOOD_CHANCE) {
            MIN_GOOD_CHANCE
        } else {
            let drop: u32 = GOOD_CHANCE_DROP * steps;
            if drop + MIN_GOOD_CHANCE >= BASE_GOOD_CHANCE {
                MIN_GOOD_CHANCE
            } else {
                BASE_GOOD_CHANCE - drop
            }
        }
    }

    /// Makes a new object just above the field, at a random place along its
    /// width. The object is a good deal with the chance that the current
    /// difficulty gives, else a bad item.
    pub fn spawn_object(&self) -> (object: FallingObject)
        requires
            self.wf(),
        ensures
            object.is_fresh(),
    {
        let x: i32 = random_below(FIELD_WIDTH - OBJECT_WIDTH);
        let percent: u32 = Scheduler::good_chance_at(self.difficulty);
        let good: bool = random_ratio(percent, PERCENT);
        FallingObject::from_draws(x, good)
    }

    /// Moves the scheduler on by one tick and returns the objects that the tick
    /// brings: one for each spawn that is due and, from difficulty 2.0 on, with
    /// odds of one in four a second one beside it.
    pub fn advance(&mut self) -> (spawned: Vec<FallingObject>)
        requires
            old(self).wf(),
            old(self).tick_count < u32::MAX,
        ensures
            *final(self) == old(self).advanced(),
            final(self).wf(),
            old(self).admits(spawned@),
            final(self).difficulty >= old(self).difficulty,
    {
        let due: u64 = self.tick();
        let extra: bool = self.difficulty >= EXTRA_SPAWN_DIFFICULTY;
        let mut spawned: Vec<FallingObject> = Vec::new();
        let mut served: u64 = 0;
        while served < due
            invariant
                self.wf(),
                served <= due,
                2 * due <= MAX_SPAWNS_PER_TICK,
                served <= spawned@.len(),
                spawned@.len() <= if extra { 2 * served } else { served as int },
                extra == (self.difficulty >= EXTRA_SPAWN_DIFFICULTY),
                forall|i: int| 0 <= i < spawned@.len() ==> (#[trigger] spawned@[i]).is_fresh(),
            decreases due - served,
        {
            let object: FallingObject = self.spawn_object();
            spawned.push(object);
            if extra && random_ratio(1, EXTRA_SPAWN_ODDS) {
                let second: FallingObject = self.spawn_object();
                spawned.push(second);
            }
            served = served + 1;
        }
        spawned
    }

    /// Number of spawns that the next tick owes.
    pub fn spawns_due(&self) -> (due: u64)
        requires
            self.wf(),
            self.tick_count < u32::MAX,
        ensures
            due == self.due(),
            2 * due <= MAX_SPAWNS_PER_TICK,
    {
        let mut next: Scheduler = *self;
        next.tick()
    }

    /// Moves the scheduler on by one tick without spawning anything, and returns
    /// the number of spawns that the tick owes.
    pub fn tick(&mut self) -> (due: u64)
        requires
            old(self).wf(),
            old(self).tick_count < u32::MAX,
        ensures
            *final(self) == old(self).advanced(),
            final(self).wf(),
            due == old(self).due(),
            2 * due <= MAX_SPAWNS_PER_TICK,
            final(self).difficulty >= old(self).difficulty,
    {
        proof {
            self.lemma_difficulty_bounds();
            self.lemma_due_bounded();
            lemma_interval_exact(self.next_difficulty());
        }
        let tick_count: u32 = self.tick_count + 1;
        let difficulty: u32 = if tick_count % DIFFICULTY_PERIOD == 0 {
            self.difficulty + DIFFICULTY_STEP
        } else {
            self.difficulty
        };
        let interval: u64 = Scheduler::interval_at(difficulty);
        let fill: u64 = (difficulty as u64) * (METER_ONE / (DIFFICULTY_ONE as u64));
        let filled: u64 = self.spawn_meter + fill;
        let due: u64 = filled / interval;
        self.tick_count = tick_count;
        self.difficulty = difficulty;
        self.spawn_meter = filled % interval;
        due
    }
}

} // verus!
