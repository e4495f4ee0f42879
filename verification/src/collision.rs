//! Collisions between falling objects and players.
//!
//! The objects are taken one after the other, in the order of the list. Each is
//! caught by the first living player, in roster order, whose box it overlaps,
//! and by nobody else: a later object meets the players as the earlier ones have
//! left them.

use vstd::prelude::*;
use crate::actors::{FallingObject, FinalScore, ObjectType, PlayerSlot};
use crate::config::{FIELD_HEIGHT, GOOD_DEAL_SCORE};

verus! {

/// Index of the first player who catches the object, if anyone does.
pub open spec fn first_catcher(players: Seq<PlayerSlot>, object: FallingObject) -> Option<int>
    decreases players.len(),
{
    if players.len() == 0 {
        None
    } else {
        match first_catcher(players.drop_last(), object) {
            Some(j) => Some(j),
            None => if players.last().catches(object) {
                Some(players.len() - 1)
            } else {
                None
            },
        }
    }
}

/// The players after one object has come down on them.
pub open spec fn strike(players: Seq<PlayerSlot>, object: FallingObject) -> Seq<PlayerSlot> {
    match first_catcher(players, object) {
        Some(j) => players.update(j, players[j].hit_by(object.kind)),
        None => players,
    }
}

/// The players after all the objects have come down on them, in order.
pub open spec fn players_after(players: Seq<PlayerSlot>, objects: Seq<FallingObject>) -> Seq<
    PlayerSlot,
>
    decreases objects.len(),
{
    if objects.len() == 0 {
        players
    } else {
        strike(players_after(players, objects.drop_last()), objects.last())
    }
}

/// The objects that nobody caught, in their old order.
pub open spec fn survivors(players: Seq<PlayerSlot>, objects: Seq<FallingObject>) -> Seq<
    FallingObject,
>
    decreases objects.len(),
{
    if objects.len() == 0 {
        Seq::empty()
    } else {
        let earlier = survivors(players, objects.drop_last());
        if first_catcher(players_after(players, objects.drop_last()), objects.last()) is None {
            earlier.push(objects.last())
        } else {
            earlier
        }
    }
}

/// The objects of the list that are still on the field.
pub open spec fn on_screen(objects: Seq<FallingObject>) -> Seq<FallingObject> {
    objects.filter(|object: FallingObject| object.on_screen())
}

/// The players of the list who are still alive.
pub open spec fn living(players: Seq<PlayerSlot>) -> Seq<PlayerSlot> {
    players.filter(|player: PlayerSlot| player.alive())
}

/// The final scores of the players of the list who are out of health.
pub open spec fn eliminated(players: Seq<PlayerSlot>) -> Seq<FinalScore> {
    players.filter(|player: PlayerSlot| !player.alive()).map_values(
        |player: PlayerSlot| player.final_score(),
    )
}

/// Every player can still take the points of `count` good deals without passing
/// `limit`.
pub open spec fn headroom(players: Seq<PlayerSlot>, count: nat, limit: int) -> bool {
    forall|i: int|
        0 <= i < players.len() ==> (#[trigger] players[i]).score + GOOD_DEAL_SCORE * count <= limit
}

/// What `first_catcher` picks: a player who catches the object, with nobody
/// before them who does; or nobody, where nobody catches it.
pub proof fn lemma_first_catcher(players: Seq<PlayerSlot>, object: FallingObject)
    ensures
        match first_catcher(players, object) {
            Some(j) => {
                &&& 0 <= j < players.len()
                &&& players[j].catches(object)
                &&& forall|k: int| 0 <= k < j ==> !(#[trigger] players[k]).catches(object)
            },
            None => forall|k: int|
                0 <= k < players.len() ==> !(#[trigger] players[k]).catches(object),
        },
    decreases players.len(),
{
    if players.len() > 0 {
        lemma_first_catcher(players.drop_last(), object);
        match first_catcher(players.drop_last(), object) {
            Some(j) => {
                assert(players[j] == players.drop_last()[j]);
                assert forall|k: int| 0 <= k < j implies !(#[trigger] players[k]).catches(
                    object,
                ) by {
                    assert(players[k] == players.drop_last()[k]);
                }
            },
            None => {
                assert forall|k: int| 0 <= k < players.len() - 1 implies !(
                #[trigger] players[k]).catches(object) by {
                    assert(players[k] == players.drop_last()[k]);
                }
            },
        }
    }
}

/// A player who catches the object, with nobody before them who does, is the
/// one `first_catcher` picks.
pub proof fn lemma_first_catcher_is(players: Seq<PlayerSlot>, object: FallingObject, j: int)
    requires
        0 <= j < players.len(),
        players[j].catches(object),
        forall|k: int| 0 <= k < j ==> !(#[trigger] players[k]).catches(object),
    ensures
        first_catcher(players, object) == Some(j),
{
    lemma_first_catcher(players, object);
}

/// A strike changes nothing but the score or the health of one player: the
/// roster keeps its length, and every player their slot and their place.
pub proof fn lemma_strike_keeps(players: Seq<PlayerSlot>, object: FallingObject)
    ensures
        strike(players, object).len() == players.len(),
        forall|i: int|
            0 <= i < players.len() ==> {
                &&& (#[trigger] strike(players, object)[i]).slot_index == players[i].slot_index
                &&& strike(players, object)[i].position == players[i].position
                &&& strike(players, object)[i].health <= players[i].health
            },
{
    lemma_first_catcher(players, object);
}

/// What `lemma_strike_keeps` says of one strike holds of a whole list of
/// objects coming down.
pub proof fn lemma_players_after_keeps(players: Seq<PlayerSlot>, objects: Seq<FallingObject>)
    ensures
        players_after(players, objects).len() == players.len(),
        forall|i: int|
            0 <= i < players.len() ==> {
                &&& (#[trigger] players_after(players, objects)[i]).slot_index
                    == players[i].slot_index
                &&& players_after(players, objects)[i].position == players[i].position
                &&& players_after(players, objects)[i].health <= players[i].health
            },
        survivors(players, objects).len() <= objects.len(),
    decreases objects.len(),
{
    if objects.len() > 0 {
        lemma_players_after_keeps(players, objects.drop_last());
        lemma_strike_keeps(players_after(players, objects.drop_last()), objects.last());
    }
}

/// Points are only had for objects that are gone: what the players have gained
/// and what the surviving objects could still give is no more than what the
/// objects could give before.
pub proof fn lemma_resolve_keeps_headroom(
    players: Seq<PlayerSlot>,
    objects: Seq<FallingObject>,
    limit: int,
)
    requires
        headroom(players, objects.len(), limit),
        limit <= u64::MAX,
    ensures
        headroom(players_after(players, objects), survivors(players, objects).len(), limit),
    decreases objects.len(),
{
    if objects.len() > 0 {
        let earlier = objects.drop_last();
        let before = players_after(players, earlier);
        assert(headroom(players, earlier.len(), limit - GOOD_DEAL_SCORE)) by {
            assert forall|i: int| 0 <= i < players.len() implies (#[trigger] players[i]).score
                + GOOD_DEAL_SCORE * earlier.len() <= limit - GOOD_DEAL_SCORE by {
                assert(players[i].score + GOOD_DEAL_SCORE * objects.len() <= limit);
            }
        }
        lemma_resolve_keeps_headroom(players, earlier, limit - GOOD_DEAL_SCORE);
        lemma_players_after_keeps(players, earlier);
        lemma_first_catcher(before, objects.last());
        let after = players_after(players, objects);
        let count = survivors(players, objects).len();
        assert forall|i: int| 0 <= i < after.len() implies (#[trigger] after[i]).score
            + GOOD_DEAL_SCORE * count <= limit by {
            assert(before[i].score + GOOD_DEAL_SCORE * survivors(players, earlier).len() <= limit
                - GOOD_DEAL_SCORE);
        }
    }
}


/// An object that exactly one living player overlaps changes that player, by
/// what its kind does, and nobody else; and it is gone afterwards.
pub proof fn lemma_single_catcher(players: Seq<PlayerSlot>, object: FallingObject, j: int)
    requires
        0 <= j < players.len(),
        players[j].catches(object),
        forall|k: int| 0 <= k < players.len() && k != j ==> !(#[trigger] players[k]).catches(object),
    ensures
        strike(players, object) == players.update(j, players[j].hit_by(object.kind)),
        strike(players, object)[j] == players[j].hit_by(object.kind),
        forall|k: int|
            0 <= k < players.len() && k != j ==> (#[trigger] strike(players, object)[k])
                == players[k],
        players_after(players, seq![object]) == strike(players, object),
        survivors(players, seq![object]) == Seq::<FallingObject>::empty(),
{
    lemma_first_catcher_is(players, object, j);
    let alone = seq![object];
    assert(alone.drop_last() =~= Seq::<FallingObject>::empty());
    assert(alone.last() == object);
    assert(players_after(players, alone.drop_last()) == players);
    assert(survivors(players, alone.drop_last()) == Seq::<FallingObject>::empty());
}

/// An object that no living player overlaps changes nobody and stays.
pub proof fn lemma_no_catcher(players: Seq<PlayerSlot>, object: FallingObject)
    requires
        forall|k: int| 0 <= k < players.len() ==> !(#[trigger] players[k]).catches(object),
    ensures
        strike(players, object) == players,
        players_after(players, seq![object]) == players,
        survivors(players, seq![object]) == seq![object],
{
    lemma_first_catcher(players, object);
    let alone = seq![object];
    assert(alone.drop_last() =~= Seq::<FallingObject>::empty());
    assert(alone.last() == object);
    assert(players_after(players, alone.drop_last()) == players);
    assert(survivors(players, alone.drop_last()) == Seq::<FallingObject>::empty());
    assert(Seq::<FallingObject>::empty().push(object) =~= seq![object]);
}

/// Among many objects too, one that no living player overlaps survives the
/// collisions; and while it is on the field it stays in the list.
pub proof fn lemma_uncaught_survives(
    players: Seq<PlayerSlot>,
    objects: Seq<FallingObject>,
    i: int,
)
    requires
        0 <= i < objects.len(),
        forall|k: int| 0 <= k < players.len() ==> !(#[trigger] players[k]).catches(objects[i]),
    ensures
        survivors(players, objects).contains(objects[i]),
        objects[i].on_screen() ==> on_screen(survivors(players, objects)).contains(objects[i]),
    decreases objects.len(),
{
    let earlier = objects.drop_last();
    let kept = survivors(players, earlier);
    if i == objects.len() - 1 {
        let before = players_after(players, earlier);
        lemma_players_after_keeps(players, earlier);
        lemma_first_catcher(before, objects.last());
        assert forall|k: int| 0 <= k < before.len() implies !(#[trigger] before[k]).catches(
            objects.last(),
        ) by {
            assert(!players[k].catches(objects[i]));
        }
        assert(kept.push(objects.last())[kept.len() as int] == objects[i]);
    } else {
        assert(earlier[i] == objects[i]);
        lemma_uncaught_survives(players, earlier, i);
        let at = choose|at: int| 0 <= at < kept.len() && kept[at] == objects[i];
        assert(survivors(players, objects)[at] == objects[i]);
    }
    if objects[i].on_screen() {
        let all = survivors(players, objects);
        let at = choose|at: int| 0 <= at < all.len() && all[at] == objects[i];
        all.lemma_filter_contains(|object: FallingObject| object.on_screen(), at);
    }
}

/// The slots of the roster come in rising order, so that no two players share
/// one.
pub open spec fn slots_ascend(players: Seq<PlayerSlot>) -> bool {
    forall|i: int, j: int|
        0 <= i < j < players.len() ==> (#[trigger] players[i]).slot_index < (
        #[trigger] players[j]).slot_index
}

/// Every object that survives the collisions is one of the objects that came
/// down.
pub proof fn lemma_survivors_within(players: Seq<PlayerSlot>, objects: Seq<FallingObject>)
    ensures
        forall|i: int|
            0 <= i < survivors(players, objects).len() ==> objects.contains(
                #[trigger] survivors(players, objects)[i],
            ),
    decreases objects.len(),
{
    if objects.len() > 0 {
        let earlier = objects.drop_last();
        lemma_survivors_within(players, earlier);
        let kept = survivors(players, earlier);
        let all = survivors(players, objects);
        assert forall|i: int| 0 <= i < all.len() implies objects.contains(#[trigger] all[i]) by {
            if i < kept.len() {
                assert(earlier.contains(kept[i]));
                let at = choose|at: int| 0 <= at < earlier.len() && earlier[at] == kept[i];
                assert(objects[at] == all[i]);
            } else {
                assert(objects[objects.len() - 1] == all[i]);
            }
        }
    }
}

/// The players who stay are players of the roster, alive, and still in rising
/// order of their slots.
pub proof fn lemma_living_within(players: Seq<PlayerSlot>)
    ensures
        living(players).len() <= players.len(),
        forall|i: int|
            0 <= i < living(players).len() ==> {
                &&& (#[trigger] living(players)[i]).alive()
                &&& players.contains(living(players)[i])
            },
        slots_ascend(players) ==> slots_ascend(living(players)),
    decreases players.len(),
{
    let keep = |player: PlayerSlot| player.alive();
    reveal(Seq::filter);
    if players.len() > 0 {
        let earlier = players.drop_last();
        lemma_living_within(earlier);
        let stay = living(players);
        assert forall|i: int| 0 <= i < stay.len() implies players.contains(#[trigger] stay[i]) by {
            if i < living(earlier).len() {
                let at = choose|at: int| 0 <= at < earlier.len() && earlier[at] == living(
                    earlier,
                )[i];
                assert(players[at] == stay[i]);
            } else {
                assert(players[players.len() - 1] == stay[i]);
            }
        }
        if slots_ascend(players) {
            assert(slots_ascend(earlier)) by {
                assert forall|i: int, j: int| 0 <= i < j < earlier.len() implies (
                #[trigger] earlier[i]).slot_index < (#[trigger] earlier[j]).slot_index by {
                    assert(players[i].slot_index < players[j].slot_index);
                }
            }
            assert forall|i: int, j: int| 0 <= i < j < stay.len() implies (
            #[trigger] stay[i]).slot_index < (#[trigger] stay[j]).slot_index by {
                if j < living(earlier).len() {
                    assert(living(earlier)[i].slot_index < living(earlier)[j].slot_index);
                } else {
                    let at = choose|at: int| 0 <= at < earlier.len() && earlier[at] == living(
                        earlier,
                    )[i];
                    assert(players[at].slot_index < players[players.len() - 1].slot_index);
                }
            }
        }
    }
}

/// Filtering a list with one more item at its end: the item is kept or not, and
/// the rest is filtered as before.
pub proof fn lemma_filter_push<A>(items: Seq<A>, last: A, keep: spec_fn(A) -> bool)
    ensures
        items.push(last).filter(keep) == if keep(last) {
            items.filter(keep).push(last)
        } else {
            items.filter(keep)
        },
{
    reveal(Seq::filter);
    assert(items.push(last).drop_last() =~= items);
}

/// Finds the first living player, in roster order, whose box the object
/// overlaps.
pub fn find_catcher(players: &Vec<PlayerSlot>, object: &FallingObject) -> (found: Option<usize>)
    ensures
        match found {
            Some(j) => first_catcher(players@, *object) == Some(j as int),
            None => first_catcher(players@, *object) is None,
        },
{
    let mut j: usize = 0;
    while j < players.len()
        invariant
            j <= players@.len(),
            forall|k: int| 0 <= k < j ==> !(#[trigger] players@[k]).catches(*object),
        decreases players@.len() - j,
    {
        if players[j].health > 0 && players[j].overlaps_object(object) {
            proof {
                lemma_first_catcher_is(players@, *object, j as int);
            }
            return Some(j);
        }
        j = j + 1;
    }
    proof {
        lemma_first_catcher(players@, *object);
    }
    None
}

/// Lets one object come down on the players: the first living player whose box
/// it overlaps gains points for a good deal, or loses one health for a bad
/// item. Tells whether anyone caught it.
pub fn strike_players(players: &mut Vec<PlayerSlot>, object: &FallingObject) -> (caught: bool)
    requires
        headroom(old(players)@, 1, u64::MAX as int),
    ensures
        final(players)@ == strike(old(players)@, *object),
        caught == (first_catcher(old(players)@, *object) is Some),
{
    match find_catcher(players, object) {
        Some(j) => {
            proof {
                lemma_first_catcher(players@, *object);
            }
            let player: PlayerSlot = players[j];
            assert(player.score + GOOD_DEAL_SCORE * 1 <= u64::MAX);
            let struck: PlayerSlot = match object.kind {
                ObjectType::GoodDeal => PlayerSlot {
                    slot_index: player.slot_index,
                    position: player.position,
                    score: player.score + GOOD_DEAL_SCORE,
                    health: player.health,
                },
                ObjectType::BadItem => PlayerSlot {
                    slot_index: player.slot_index,
                    position: player.position,
                    score: player.score,
                    health: if player.health > 0 {
                        player.health - 1
                    } else {
                        0
                    },
                },
            };
            players[j] = struck;
            true
        },
        None => false,
    }
}

/// Settles a tick's collisions. Each object, in order, comes down on the
/// players; the objects that were caught and those that have left the field
/// are taken out; then the players who are out of health leave the roster, and
/// their final scores are returned in roster order.
pub fn resolve(players: &mut Vec<PlayerSlot>, objects: &mut Vec<FallingObject>) -> (out: Vec<
    FinalScore,
>)
    requires
        headroom(old(players)@, old(objects)@.len(), u64::MAX as int),
    ensures
        final(objects)@ == on_screen(survivors(old(players)@, old(objects)@)),
        final(players)@ == living(players_after(old(players)@, old(objects)@)),
        out@ == eliminated(players_after(old(players)@, old(objects)@)),
{
    let ghost before = players@;
    let ghost falling = objects@;
    let mut kept: Vec<FallingObject> = Vec::new();
    let mut i: usize = 0;
    while i < objects.len()
        invariant
            i <= objects@.len(),
            objects@ == falling,
            headroom(before, falling.len(), u64::MAX as int),
            players@ == players_after(before, falling.take(i as int)),
            kept@ == on_screen(survivors(before, falling.take(i as int))),
        decreases objects@.len() - i,
    {
        let object: FallingObject = objects[i];
        proof {
            let seen = falling.take(i as int);
            assert(falling.take(i + 1).drop_last() =~= seen);
            assert(falling.take(i + 1).last() == object);
            let limit = u64::MAX - GOOD_DEAL_SCORE * (falling.len() - i);
            assert(headroom(before, seen.len(), limit)) by {
                assert forall|k: int| 0 <= k < before.len() implies (#[trigger] before[k]).score
                    + GOOD_DEAL_SCORE * seen.len() <= limit by {
                    assert(before[k].score + GOOD_DEAL_SCORE * falling.len() <= u64::MAX);
                }
            }
            lemma_resolve_keeps_headroom(before, seen, limit);
            lemma_filter_push(
                survivors(before, seen),
                object,
                |object: FallingObject| object.on_screen(),
            );
        }
        let caught: bool = strike_players(players, &object);
        if !caught && object.position.y < FIELD_HEIGHT {
            kept.push(object);
        }
        i = i + 1;
    }
    assert(falling.take(i as int) =~= falling);
    *objects = kept;
    let ghost struck = players@;
    let mut alive: Vec<PlayerSlot> = Vec::new();
    let mut out: Vec<FinalScore> = Vec::new();
    let mut j: usize = 0;
    while j < players.len()
        invariant
            j <= players@.len(),
            players@ == struck,
            alive@ == living(struck.take(j as int)),
            out@ == eliminated(struck.take(j as int)),
        decreases players@.len() - j,
    {
        let player: PlayerSlot = players[j];
        proof {
            assert(struck.take(j + 1) =~= struck.take(j as int).push(player));
            lemma_filter_push(struck.take(j as int), player, |player: PlayerSlot| player.alive());
            lemma_filter_push(struck.take(j as int), player, |player: PlayerSlot| !player.alive());
        }
        if player.health > 0 {
            alive.push(player);
        } else {
            out.push(FinalScore { slot_index: player.slot_index, score: player.score });
        }
        j = j + 1;
    }
    assert(struck.take(j as int) =~= struck);
    *players = alive;
    out
}

} // verus!
