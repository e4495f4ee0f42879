//! The things on the playfield: players and falling objects.

use vstd::prelude::*;
use crate::config::{
    FIELD_HEIGHT, FIELD_WIDTH, GOOD_DEAL_SCORE, INITIAL_HEALTH, MAX_PLAYERS, OBJECT_HEIGHT,
    OBJECT_WIDTH, PLAYER_HEIGHT, PLAYER_MARGIN, PLAYER_SPEED, PLAYER_WIDTH,
};

verus! {

/// How many players take part in a round.
#[derive(Clone, Copy, Debug, PartialEq, Eq, Structural)]
pub enum PlayerMode {
    Single,
    Two,
}

impl PlayerMode {
    /// Number of players of the mode, as a specification.
    pub open spec fn count(self) -> nat {
        match self {
            PlayerMode::Single => 1,
            PlayerMode::Two => 2,
        }
    }

    /// The mode that a stored tag stands for: zero for one player, anything else
    /// for two.
    pub fn from_tag(tag: u8) -> (mode: PlayerMode)
        ensures
            mode == if tag == 0 {
                PlayerMode::Single
            } else {
                PlayerMode::Two
            },
    {
        if tag == 0 {
            PlayerMode::Single
        } else {
            PlayerMode::Two
        }
    }

    /// The tag under which the mode is stored: zero for one player, one for two.
    pub fn tag(&self) -> (tag: u8)
        ensures
            tag == match *self {
                PlayerMode::Single => 0u8,
                PlayerMode::Two => 1u8,
            },
    {
        match self {
            PlayerMode::Single => 0,
            PlayerMode::Two => 1,
        }
    }

    /// Number of players of the mode.
    pub fn player_count(&self) -> (count: usize)
        ensures
            count == self.count(),
            1 <= count <= MAX_PLAYERS,
    {
        match self {
            PlayerMode::Single => 1,
            PlayerMode::Two => 2,
        }
    }
}

/// Top-left corner of a box on the playfield.
#[derive(Clone, Copy, Debug, PartialEq, Eq, Structural)]
pub struct Position {
    pub x: i32,
    pub y: i32,
}

/// What a falling object does to the player who catches it.
#[derive(Clone, Copy, Debug, PartialEq, Eq, Structural)]
pub enum ObjectType {
    /// Worth points.
    GoodDeal,
    /// Costs one health.
    BadItem,
}

/// An object on its way down the field.
#[derive(Clone, Copy, Debug, PartialEq, Eq, Structural)]
pub struct FallingObject {
    pub position: Position,
    pub kind: ObjectType,
}

/// A player in the round.
#[derive(Clone, Copy, Debug, PartialEq, Eq, Structural)]
pub struct PlayerSlot {
    /// Which player this is; it stays the same when the roster shrinks.
    pub slot_index: usize,
    pub position: Position,
    pub score: u64,
    pub health: u32,
}

/// Score of a player who has left the round.
#[derive(Clone, Copy, Debug, PartialEq, Eq, Structural)]
pub struct FinalScore {
    pub slot_index: usize,
    pub score: u64,
}

/// Largest `x` a player's box can have.
pub open spec fn max_player_x() -> int {
    FIELD_WIDTH - PLAYER_WIDTH
}

/// The `y` of every player's box.
pub open spec fn player_top() -> int {
    FIELD_HEIGHT - PLAYER_HEIGHT - PLAYER_MARGIN
}

/// New objects appear with `x` below this.
pub open spec fn spawn_limit() -> int {
    FIELD_WIDTH - OBJECT_WIDTH
}

/// Where the box of player `index` of `total` starts a round: the centres of the
/// boxes divide the width of the field evenly.
pub open spec fn start_x(index: int, total: int) -> int {
    FIELD_WIDTH * (index + 1) / (total + 1) - PLAYER_WIDTH / 2
}

impl FallingObject {
    /// An object of the given kind that has just appeared above the field.
    pub open spec fn fresh(x: int, kind: ObjectType) -> FallingObject {
        FallingObject { position: Position { x: x as i32, y: (-OBJECT_HEIGHT) as i32 }, kind }
    }

    /// The object is one that may appear: it sits just above the field and its
    /// box lies inside the field's width.
    pub open spec fn is_fresh(self) -> bool {
        &&& 0 <= self.position.x < spawn_limit()
        &&& self.position.y == -OBJECT_HEIGHT
    }

    /// The object has not left the field through the bottom.
    pub open spec fn on_screen(self) -> bool {
        self.position.y < FIELD_HEIGHT
    }

    /// The same object `distance` further down.
    pub open spec fn lowered(self, distance: int) -> FallingObject {
        FallingObject {
            position: Position { x: self.position.x, y: (self.position.y + distance) as i32 },
            kind: self.kind,
        }
    }

    /// Makes the object that two draws give: `x` is where it appears along the
    /// field's width, and `good` says whether it is a good deal.
    pub fn from_draws(x: i32, good: bool) -> (object: FallingObject)
        ensures
            object == FallingObject::fresh(
                x as int,
                if good {
                    ObjectType::GoodDeal
                } else {
                    ObjectType::BadItem
                },
            ),
            0 <= x < spawn_limit() ==> object.is_fresh(),
    {
        FallingObject::new(
            x,
            if good {
                ObjectType::GoodDeal
            } else {
                ObjectType::BadItem
            },
        )
    }

    /// Makes an object of the given kind just above the field.
    pub fn new(x: i32, kind: ObjectType) -> (object: FallingObject)
        ensures
            object == FallingObject::fresh(x as int, kind),
            0 <= x < spawn_limit() ==> object.is_fresh(),
    {
        FallingObject { position: Position { x, y: -OBJECT_HEIGHT }, kind }
    }
}

impl PlayerSlot {
    /// The player as a round begins.
    pub open spec fn fresh(index: int, total: int) -> PlayerSlot {
        PlayerSlot {
            slot_index: index as usize,
            position: Position { x: start_x(index, total) as i32, y: player_top() as i32 },
            score: 0,
            health: INITIAL_HEALTH,
        }
    }

    /// The player is still in the round.
    pub open spec fn alive(self) -> bool {
        self.health > 0
    }

    /// The player's box lies inside the field, at the height of the players.
    pub open spec fn in_field(self) -> bool {
        &&& 0 <= self.position.x <= max_player_x()
        &&& self.position.y == player_top()
    }

    /// The boxes of the player and of the object overlap.
    pub open spec fn overlaps(self, object: FallingObject) -> bool {
        &&& self.position.x < object.position.x + OBJECT_WIDTH
        &&& self.position.x + PLAYER_WIDTH > object.position.x
        &&& self.position.y < object.position.y + OBJECT_HEIGHT
        &&& self.position.y + PLAYER_HEIGHT > object.position.y
    }

    /// The player catches the object: only a living player does.
    pub open spec fn catches(self, object: FallingObject) -> bool {
        self.alive() && self.overlaps(object)
    }

    /// The player after catching an object of the given kind.
    pub open spec fn hit_by(self, kind: ObjectType) -> PlayerSlot {
        match kind {
            ObjectType::GoodDeal => PlayerSlot { score: (self.score + GOOD_DEAL_SCORE) as u64, ..self },
            ObjectType::BadItem => PlayerSlot {
                health: if self.health > 0 { (self.health - 1) as u32 } else { 0 },
                ..self
            },
        }
    }

    /// The player after moving `dx` steps of `PLAYER_SPEED`, kept inside the field.
    pub open spec fn moved(self, dx: int) -> PlayerSlot {
        let target = self.position.x + dx * PLAYER_SPEED;
        let x = if target < 0 { 0 } else if target > max_player_x() { max_player_x() } else { target };
        PlayerSlot { position: Position { x: x as i32, y: self.position.y }, ..self }
    }

    /// What the player's final score records.
    pub open spec fn final_score(self) -> FinalScore {
        FinalScore { slot_index: self.slot_index, score: self.score }
    }

    /// Player `index` of `total_players` as a round begins.
    pub fn new(index: usize, total_players: usize) -> (slot: PlayerSlot)
        requires
            index < total_players <= MAX_PLAYERS,
        ensures
            slot == PlayerSlot::fresh(index as int, total_players as int),
            slot.alive(),
            slot.in_field(),
    {
        let parts: i32 = total_players as i32 + 1;
        let centre: i32 = FIELD_WIDTH * (index as i32 + 1) / parts;
        assert(0 <= centre - PLAYER_WIDTH / 2 <= max_player_x()) by {
            if total_players == 1 {
                assert(centre == FIELD_WIDTH / 2);
            } else if index == 0 {
                assert(centre == FIELD_WIDTH / 3);
            } else {
                assert(centre == FIELD_WIDTH * 2 / 3);
            }
        }
        PlayerSlot {
            slot_index: index,
            position: Position {
                x: centre - PLAYER_WIDTH / 2,
                y: FIELD_HEIGHT - PLAYER_HEIGHT - PLAYER_MARGIN,
            },
            score: 0,
            health: INITIAL_HEALTH,
        }
    }

    /// Tells whether the boxes of the player and of the object overlap.
    pub fn overlaps_object(&self, object: &FallingObject) -> (overlap: bool)
        ensures
            overlap == self.overlaps(*object),
    {
        let left: i64 = self.position.x as i64;
        let top: i64 = self.position.y as i64;
        let object_left: i64 = object.position.x as i64;
        let object_top: i64 = object.position.y as i64;
        left < object_left + OBJECT_WIDTH as i64 && left + PLAYER_WIDTH as i64 > object_left
            && top < object_top + OBJECT_HEIGHT as i64 && top + PLAYER_HEIGHT as i64 > object_top
    }
}

} // verus!
