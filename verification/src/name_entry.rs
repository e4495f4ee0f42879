//! Entry of the names for the scores of a finished round.
//!
//! The players who went out enter their names one after the other, in the
//! order in which they went. A name starts as `AAA`; a cursor picks the letter
//! that up and down change.

use vstd::prelude::*;
use crate::actors::{FinalScore, PlayerMode};
use crate::config::NAME_LENGTH;
use crate::input::EdgeSet;
use crate::leaderboard::{Initials, LeaderboardEntry};

verus! {

/// The state of name entry.
pub struct NameEntry {
    pending: Vec<FinalScore>,
    name: Initials,
    cursor: usize,
}

/// What name entry holds, as plain mathematical values.
pub struct NameEntryView {
    /// The scores that still wait for a name; the first is the one in hand.
    pub pending: Seq<FinalScore>,
    /// The name as it stands.
    pub name: Initials,
    /// The place of the letter that up and down change.
    pub cursor: nat,
}

impl NameEntryView {
    /// The cursor points at a letter of the name.
    pub open spec fn wf(self) -> bool {
        self.cursor < NAME_LENGTH
    }

    /// Name entry with nothing to enter.
    pub open spec fn idle() -> NameEntryView {
        NameEntryView { pending: Seq::empty(), name: Initials::start(), cursor: 0 }
    }

    /// Name entry as it begins for the given scores.
    pub open spec fn begun(scores: Seq<FinalScore>) -> NameEntryView {
        NameEntryView { pending: scores, name: Initials::start(), cursor: 0 }
    }

    /// Name and cursor after the presses of a tick: up takes the letter at the
    /// cursor one back and down takes it one on, around the alphabet; then left
    /// and right move the cursor, which stops at the ends of the name.
    pub open spec fn edited(self, edges: EdgeSet) -> NameEntryView {
        let after_up = if edges.up {
            self.name.turned(self.cursor as int, false)
        } else {
            self.name
        };
        let name = if edges.down {
            after_up.turned(self.cursor as int, true)
        } else {
            after_up
        };
        let after_left = if edges.left && self.cursor > 0 {
            (self.cursor - 1) as nat
        } else {
            self.cursor
        };
        let cursor = if edges.right && after_left + 1 < NAME_LENGTH {
            after_left + 1
        } else {
            after_left
        };
        NameEntryView { pending: self.pending, name, cursor }
    }

    /// Whether the tick commits a name: confirm is pressed and a score waits.
    pub open spec fn commits(self, edges: EdgeSet) -> bool {
        edges.confirm && self.pending.len() > 0
    }

    /// The entry that the tick commits: the score in hand under the name as the
    /// tick's presses leave it.
    pub open spec fn entry(self, edges: EdgeSet, mode: PlayerMode) -> LeaderboardEntry {
        LeaderboardEntry { score: self.pending[0].score, mode, name: self.edited(edges).name }
    }

    /// Whether the tick commits the name for the last score that waits.
    pub open spec fn finishes(self, edges: EdgeSet) -> bool {
        self.commits(edges) && self.pending.len() == 1
    }

    /// Name entry after a tick. A commit takes the score in hand off the list;
    /// if another score waits, its name starts as `AAA` with the cursor at the
    /// first letter.
    pub open spec fn after(self, edges: EdgeSet) -> NameEntryView {
        let edited = self.edited(edges);
        if !self.commits(edges) {
            edited
        } else if self.pending.len() > 1 {
            NameEntryView::begun(self.pending.remove(0))
        } else {
            NameEntryView { pending: self.pending.remove(0), ..edited }
        }
    }
}

impl NameEntryView {
    /// The presses of a tick leave the cursor on a letter of the name.
    pub proof fn lemma_after_wf(self, edges: EdgeSet)
        requires
            self.wf(),
        ensures
            self.edited(edges).wf(),
            self.after(edges).wf(),
    {
    }
}

impl View for NameEntry {
    type V = NameEntryView;

    closed spec fn view(&self) -> NameEntryView {
        NameEntryView { pending: self.pending@, name: self.name, cursor: self.cursor as nat }
    }
}

impl NameEntry {
    /// The invariant of name entry.
    pub open spec fn wf(&self) -> bool {
        self@.wf()
    }

    /// Name entry with nothing to enter.
    pub fn new() -> (entry: NameEntry)
        ensures
            entry@ == NameEntryView::idle(),
            entry.wf(),
    {
        NameEntry { pending: Vec::new(), name: Initials::new(), cursor: 0 }
    }

    /// Begins name entry for the given scores, in their order.
    pub fn start(scores: &Vec<FinalScore>) -> (entry: NameEntry)
        ensures
            entry@ == NameEntryView::begun(scores@),
            entry.wf(),
    {
        let mut pending: Vec<FinalScore> = Vec::new();
        let mut i: usize = 0;
        while i < scores.len()
            invariant
                i <= scores@.len(),
                pending@ == scores@.take(i as int),
            decreases scores@.len() - i,
        {
            pending.push(scores[i]);
            assert(scores@.take(i + 1) =~= scores@.take(i as int).push(scores@[i as int]));
            i = i + 1;
        }
        assert(scores@.take(i as int) =~= scores@);
        NameEntry { pending, name: Initials::new(), cursor: 0 }
    }

    /// The scores that still wait for a name.
    pub fn pending(&self) -> (pending: &Vec<FinalScore>)
        ensures
            pending@ == self@.pending,
    {
        &self.pending
    }

    /// The name as it stands.
    pub fn name(&self) -> (name: Initials)
        ensures
            name == self@.name,
    {
        self.name
    }

    /// The place of the letter that up and down change.
    pub fn cursor(&self) -> (cursor: usize)
        ensures
            cursor == self@.cursor,
    {
        self.cursor
    }

    /// Takes the presses of one tick: changes the letter at the cursor, moves
    /// the cursor, and on confirm commits the name for the score in hand, which
    /// is returned with the name. With no score in hand confirm does nothing.
    pub fn apply(&mut self, edges: &EdgeSet) -> (committed: Option<(FinalScore, Initials)>)
        requires
            old(self).wf(),
        ensures
            final(self)@ == old(self)@.after(*edges),
            final(self).wf(),
            committed is Some <==> old(self)@.commits(*edges),
            committed matches Some(pair) ==> pair.0 == old(self)@.pending[0] && pair.1 == old(
                self,
            )@.edited(*edges).name,
    {
        if edges.up {
            self.name.cycle(self.cursor, false);
        }
        if edges.down {
            self.name.cycle(self.cursor, true);
        }
        if edges.left && self.cursor > 0 {
            self.cursor = self.cursor - 1;
        }
        if edges.right && self.cursor + 1 < NAME_LENGTH {
            self.cursor = self.cursor + 1;
        }
        assert(self@ == old(self)@.edited(*edges));
        if edges.confirm && self.pending.len() > 0 {
            let name: Initials = self.name;
            let score: FinalScore = self.pending.remove(0);
            if self.pending.len() > 0 {
                self.name = Initials::new();
                self.cursor = 0;
            }
            Some((score, name))
        } else {
            None
        }
    }
}

} // verus!
