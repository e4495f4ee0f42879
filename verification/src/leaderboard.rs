//! The leaderboard: the best scores with the names entered for them.
//!
//! The board keeps at most `LEADERBOARD_CAPACITY` entries, ordered from the
//! highest score down. Of two entries with the same score the one that was added
//! first comes first.

use vstd::prelude::*;
use crate::actors::PlayerMode;
use crate::config::{LEADERBOARD_CAPACITY, NAME_LENGTH};

verus! {

/// The letters that a name is made of.
pub open spec fn is_letter(c: char) -> bool {
    'A' <= c <= 'Z'
}

/// The letter after `c`; after `Z` comes `A` again.
pub open spec fn next_letter(c: char) -> char {
    if c == 'Z' {
        'A'
    } else {
        ((c as int) + 1) as char
    }
}

/// The letter before `c`; before `A` comes `Z`.
pub open spec fn previous_letter(c: char) -> char {
    if c == 'A' {
        'Z'
    } else {
        ((c as int) - 1) as char
    }
}

/// A name with the letter at `cursor` moved one on, forward or backward; a
/// cursor outside the name changes nothing.
pub open spec fn cycled(name: Seq<char>, cursor: int, forward: bool) -> Seq<char> {
    if 0 <= cursor < name.len() {
        name.update(
            cursor,
            if forward {
                next_letter(name[cursor])
            } else {
                previous_letter(name[cursor])
            },
        )
    } else {
        name
    }
}

/// A name is three letters.
pub open spec fn is_name(name: Seq<char>) -> bool {
    &&& name.len() == NAME_LENGTH
    &&& forall|i: int| 0 <= i < name.len() ==> is_letter(#[trigger] name[i])
}

/// A name of three letters from `A` to `Z`.
#[derive(Clone, Copy, Debug, PartialEq, Eq)]
pub struct Initials {
    first: char,
    second: char,
    third: char,
}

impl View for Initials {
    type V = Seq<char>;

    closed spec fn view(&self) -> Seq<char> {
        seq![self.first, self.second, self.third]
    }
}

impl Initials {
    #[verifier::type_invariant]
    spec fn letters_only(self) -> bool {
        is_letter(self.first) && is_letter(self.second) && is_letter(self.third)
    }

    /// The name that name entry starts from, `AAA`.
    pub closed spec fn start() -> Initials {
        Initials { first: 'A', second: 'A', third: 'A' }
    }

    /// The name with the letter at `cursor` moved one on, forward or backward,
    /// around the alphabet.
    pub closed spec fn turned(self, cursor: int, forward: bool) -> Initials {
        let turn = |letter: char|
            if forward {
                next_letter(letter)
            } else {
                previous_letter(letter)
            };
        if cursor == 0 {
            Initials { first: turn(self.first), ..self }
        } else if cursor == 1 {
            Initials { second: turn(self.second), ..self }
        } else if cursor == 2 {
            Initials { third: turn(self.third), ..self }
        } else {
            self
        }
    }

    /// What `start` and `turned` are, letter by letter.
    pub proof fn lemma_letters(self, cursor: int, forward: bool)
        ensures
            Initials::start()@ == seq!['A', 'A', 'A'],
            self.turned(cursor, forward)@ == cycled(self@, cursor, forward),
            self@.len() == NAME_LENGTH,
    {
        assert(self.turned(cursor, forward)@ =~= cycled(self@, cursor, forward));
    }

    /// The name that name entry starts from.
    pub fn new() -> (name: Initials)
        ensures
            name == Initials::start(),
            name@ == seq!['A', 'A', 'A'],
            is_name(name@),
    {
        Initials { first: 'A', second: 'A', third: 'A' }
    }

    /// The name of the three letters, if they are letters.
    pub fn from_letters(first: char, second: char, third: char) -> (name: Option<Initials>)
        ensures
            name is Some <==> is_letter(first) && is_letter(second) && is_letter(third),
            name matches Some(n) ==> n@ == seq![first, second, third] && is_name(n@),
    {
        if 'A' <= first && first <= 'Z' && 'A' <= second && second <= 'Z' && 'A' <= third && third
            <= 'Z' {
            Some(Initials { first, second, third })
        } else {
            None
        }
    }

    /// Reads a name from a text: the text must be three letters.
    pub fn parse(text: &str) -> (name: Option<Initials>)
        ensures
            name is Some <==> is_name(text@),
            name matches Some(n) ==> n@ == text@,
    {
        if text.unicode_len() != NAME_LENGTH {
            return None;
        }
        let name: Option<Initials> = Initials::from_letters(
            text.get_char(0),
            text.get_char(1),
            text.get_char(2),
        );
        proof {
            if name is Some {
                assert(name->0@ =~= text@);
            } else {
                assert(!is_letter(text@[0]) || !is_letter(text@[1]) || !is_letter(text@[2]));
            }
        }
        name
    }

    /// Reads a name from a text; a text that is no name gives `AAA`.
    pub fn parse_or_default(text: &str) -> (name: Initials)
        ensures
            name@ == if is_name(text@) {
                text@
            } else {
                seq!['A', 'A', 'A']
            },
    {
        match Initials::parse(text) {
            Some(name) => name,
            None => Initials::new(),
        }
    }

    /// The three letters of the name.
    pub fn letters(&self) -> (letters: [char; 3])
        ensures
            letters@ == self@,
            is_name(self@),
    {
        proof {
            use_type_invariant(self);
        }
        let letters: [char; 3] = [self.first, self.second, self.third];
        assert(letters@ =~= self@);
        letters
    }

    /// Moves the letter at `cursor` one on, forward or backward, around the
    /// alphabet. A cursor outside the name changes nothing.
    pub fn cycle(&mut self, cursor: usize, forward: bool)
        ensures
            *final(self) == old(self).turned(cursor as int, forward),
            final(self)@ == cycled(old(self)@, cursor as int, forward),
            is_name(final(self)@),
    {
        proof {
            use_type_invariant(&*self);
        }
        let ghost before = self@;
        if cursor == 0 {
            self.first = Initials::turn(self.first, forward);
        } else if cursor == 1 {
            self.second = Initials::turn(self.second, forward);
        } else if cursor == 2 {
            self.third = Initials::turn(self.third, forward);
        }
        assert(self@ =~= cycled(before, cursor as int, forward));
    }

    /// The letter after or before a letter, around the alphabet.
    fn turn(letter: char, forward: bool) -> (turned: char)
        requires
            is_letter(letter),
        ensures
            is_letter(turned),
            turned == if forward {
                next_letter(letter)
            } else {
                previous_letter(letter)
            },
    {
        if forward {
            if letter == 'Z' {
                'A'
            } else {
                ((letter as u8) + 1) as char
            }
        } else {
            if letter == 'A' {
                'Z'
            } else {
                ((letter as u8) - 1) as char
            }
        }
    }
}

/// One line of the leaderboard.
#[derive(Clone, Copy, Debug, PartialEq, Eq)]
pub struct LeaderboardEntry {
    pub score: u64,
    pub mode: PlayerMode,
    pub name: Initials,
}

impl LeaderboardEntry {
    /// The entry that a stored record stands for. A mode tag of zero is one
    /// player, any other is two; a name that is missing or is not three letters
    /// becomes `AAA`.
    pub fn from_record(score: u64, mode_tag: u8, name: Option<&str>) -> (entry: LeaderboardEntry)
        ensures
            entry.score == score,
            entry.mode == if mode_tag == 0 {
                PlayerMode::Single
            } else {
                PlayerMode::Two
            },
            entry.name@ == match name {
                Some(text) if is_name(text@) => text@,
                _ => seq!['A', 'A', 'A'],
            },
    {
        let name: Initials = match name {
            Some(text) => Initials::parse_or_default(text),
            None => Initials::new(),
        };
        LeaderboardEntry { score, mode: PlayerMode::from_tag(mode_tag), name }
    }
}

/// The scores never rise along the list.
pub open spec fn sorted_descending(entries: Seq<LeaderboardEntry>) -> bool {
    forall|i: int, j: int|
        0 <= i < j < entries.len() ==> (#[trigger] entries[i]).score >= (
        #[trigger] entries[j]).score
}

/// What a leaderboard's list of entries keeps to: the order of the scores and
/// the capacity.
pub open spec fn is_board(entries: Seq<LeaderboardEntry>) -> bool {
    sorted_descending(entries) && entries.len() <= LEADERBOARD_CAPACITY
}

/// The place at which an entry with the given score goes in: behind every entry
/// that has at least this score.
pub open spec fn rank_of(entries: Seq<LeaderboardEntry>, score: u64) -> int
    decreases entries.len(),
{
    if entries.len() == 0 {
        0
    } else if entries.last().score >= score {
        entries.len() as int
    } else {
        rank_of(entries.drop_last(), score)
    }
}

/// The list with one more entry at its rank, cut to the capacity.
pub open spec fn with_entry(entries: Seq<LeaderboardEntry>, entry: LeaderboardEntry) -> Seq<
    LeaderboardEntry,
> {
    let placed = entries.insert(rank_of(entries, entry.score), entry);
    if placed.len() > LEADERBOARD_CAPACITY {
        placed.take(LEADERBOARD_CAPACITY as int)
    } else {
        placed
    }
}

/// The list after a run of entries has been added, one after the other.
pub open spec fn with_entries(
    entries: Seq<LeaderboardEntry>,
    added: Seq<LeaderboardEntry>,
) -> Seq<LeaderboardEntry>
    decreases added.len(),
{
    if added.len() == 0 {
        entries
    } else {
        with_entry(with_entries(entries, added.drop_last()), added.last())
    }
}

/// In an ordered list the rank of a score parts the entries that have at least
/// this score from those that have less.
pub proof fn lemma_rank_of(entries: Seq<LeaderboardEntry>, score: u64)
    requires
        sorted_descending(entries),
    ensures
        0 <= rank_of(entries, score) <= entries.len(),
        forall|i: int| 0 <= i < rank_of(entries, score) ==> (#[trigger] entries[i]).score >= score,
        forall|i: int|
            rank_of(entries, score) <= i < entries.len() ==> (#[trigger] entries[i]).score < score,
    decreases entries.len(),
{
    if entries.len() > 0 && entries.last().score < score {
        let earlier = entries.drop_last();
        assert(sorted_descending(earlier)) by {
            assert forall|i: int, j: int| 0 <= i < j < earlier.len() implies (
            #[trigger] earlier[i]).score >= (#[trigger] earlier[j]).score by {
                assert(entries[i].score >= entries[j].score);
            }
        }
        lemma_rank_of(earlier, score);
        assert forall|i: int| 0 <= i < rank_of(entries, score) implies (
        #[trigger] entries[i]).score >= score by {
            assert(earlier[i].score >= score);
        }
        assert forall|i: int| rank_of(entries, score) <= i < entries.len() implies (
        #[trigger] entries[i]).score < score by {
            if i < earlier.len() {
                assert(earlier[i].score < score);
            }
        }
    } else if entries.len() > 0 {
        assert forall|i: int| 0 <= i < entries.len() implies (#[trigger] entries[i]).score
            >= score by {
            if i < entries.len() - 1 {
                assert(entries[i].score >= entries[entries.len() - 1].score);
            }
        }
    }
}

/// The place that parts the entries with at least a score from those with less
/// is the rank of that score.
pub proof fn lemma_rank_is(entries: Seq<LeaderboardEntry>, score: u64, rank: int)
    requires
        sorted_descending(entries),
        0 <= rank <= entries.len(),
        forall|i: int| 0 <= i < rank ==> (#[trigger] entries[i]).score >= score,
        forall|i: int| rank <= i < entries.len() ==> (#[trigger] entries[i]).score < score,
    ensures
        rank_of(entries, score) == rank,
{
    lemma_rank_of(entries, score);
    let found = rank_of(entries, score);
    if found < rank {
        assert(entries[found].score >= score);
    } else if found > rank {
        assert(entries[rank].score < score);
    }
}

/// Adding an entry to a board gives a board. It holds the new entry and the old
/// ones, but for the last of them where the board was full; and if the new
/// entry itself falls off, the board stays as it was.
pub proof fn lemma_with_entry(entries: Seq<LeaderboardEntry>, entry: LeaderboardEntry)
    requires
        is_board(entries),
    ensures
        is_board(with_entry(entries, entry)),
        with_entry(entries, entry).len() == if entries.len() < LEADERBOARD_CAPACITY {
            entries.len() + 1
        } else {
            entries.len()
        },
        forall|i: int|
            0 <= i < with_entry(entries, entry).len() ==> {
                ||| (#[trigger] with_entry(entries, entry)[i]) == entry
                ||| entries.contains(with_entry(entries, entry)[i])
            },
        forall|x: LeaderboardEntry|
            (x == entry || entries.contains(x)) && !with_entry(entries, entry).contains(x) ==> {
                &&& with_entry(entries, entry).len() == LEADERBOARD_CAPACITY
                &&& forall|i: int|
                    0 <= i < with_entry(entries, entry).len() ==> (#[trigger] with_entry(
                        entries,
                        entry,
                    )[i]).score >= x.score
            },
{
    lemma_rank_of(entries, entry.score);
    let rank = rank_of(entries, entry.score);
    let placed = entries.insert(rank, entry);
    let kept = with_entry(entries, entry);
    entries.insert_ensures(rank, entry);
    assert(sorted_descending(placed)) by {
        assert forall|i: int, j: int| 0 <= i < j < placed.len() implies (
        #[trigger] placed[i]).score >= (#[trigger] placed[j]).score by {
            if j < rank {
                assert(entries[i].score >= entries[j].score);
            } else if j == rank {
                assert(entries[i].score >= entry.score);
            } else if i < rank {
                assert(entries[i].score >= entry.score);
                assert(entries[j - 1].score < entry.score);
            } else if i == rank {
                assert(entries[j - 1].score < entry.score);
            } else {
                assert(entries[i - 1].score >= entries[j - 1].score);
            }
        }
    }
    assert forall|i: int| 0 <= i < kept.len() implies {
        ||| (#[trigger] kept[i]) == entry
        ||| entries.contains(kept[i])
    } by {
        assert(kept[i] == placed[i]);
        if i < rank {
            assert(entries[i] == placed[i]);
        } else if i > rank {
            assert(entries[i - 1] == placed[i]);
        }
    }
    assert forall|x: LeaderboardEntry|
        (x == entry || entries.contains(x)) && !kept.contains(x) implies {
        &&& kept.len() == LEADERBOARD_CAPACITY
        &&& forall|i: int| 0 <= i < kept.len() ==> (#[trigger] kept[i]).score >= x.score
    } by {
        let at = if x == entry {
            rank
        } else {
            let from = choose|from: int| 0 <= from < entries.len() && entries[from] == x;
            if from < rank {
                from
            } else {
                from + 1
            }
        };
        assert(placed[at] == x);
        if at < kept.len() {
            assert(kept[at] == x);
        }
        assert forall|i: int| 0 <= i < kept.len() implies (#[trigger] kept[i]).score
            >= x.score by {
            assert(kept[i] == placed[i]);
            assert(placed[i].score >= placed[at].score);
        }
    }
}

/// After any run of additions the board is ordered and within its capacity. It
/// holds only entries that it had or that were added; and it holds them all,
/// unless it is full, in which case every entry that is missing has no more
/// points than any entry that is there.
pub proof fn lemma_with_entries(entries: Seq<LeaderboardEntry>, added: Seq<LeaderboardEntry>)
    requires
        is_board(entries),
    ensures
        is_board(with_entries(entries, added)),
        with_entries(entries, added).len() == if entries.len() + added.len()
            < LEADERBOARD_CAPACITY {
            entries.len() + added.len()
        } else {
            LEADERBOARD_CAPACITY as nat
        },
        forall|i: int|
            0 <= i < with_entries(entries, added).len() ==> {
                ||| entries.contains(#[trigger] with_entries(entries, added)[i])
                ||| added.contains(with_entries(entries, added)[i])
            },
        forall|x: LeaderboardEntry|
            (entries.contains(x) || added.contains(x)) && !with_entries(entries, added).contains(
                x,
            ) ==> {
                &&& with_entries(entries, added).len() == LEADERBOARD_CAPACITY
                &&& forall|i: int|
                    0 <= i < with_entries(entries, added).len() ==> (#[trigger] with_entries(
                        entries,
                        added,
                    )[i]).score >= x.score
            },
    decreases added.len(),
{
    if added.len() > 0 {
        let earlier = added.drop_last();
        let entry = added.last();
        let before = with_entries(entries, earlier);
        let after = with_entries(entries, added);
        lemma_with_entries(entries, earlier);
        lemma_with_entry(before, entry);
        assert forall|i: int| 0 <= i < after.len() implies {
            ||| entries.contains(#[trigger] after[i])
            ||| added.contains(after[i])
        } by {
            if after[i] == entry {
                assert(added[added.len() - 1] == entry);
            } else {
                assert(before.contains(after[i]));
                let at = choose|at: int| 0 <= at < before.len() && before[at] == after[i];
                if !entries.contains(before[at]) {
                    assert(earlier.contains(before[at]));
                    let from = choose|from: int|
                        0 <= from < earlier.len() && earlier[from] == before[at];
                    assert(added[from] == after[i]);
                }
            }
        }
        assert forall|x: LeaderboardEntry|
            (entries.contains(x) || added.contains(x)) && !after.contains(x) implies {
            &&& after.len() == LEADERBOARD_CAPACITY
            &&& forall|i: int| 0 <= i < after.len() ==> (#[trigger] after[i]).score >= x.score
        } by {
            if x == entry || before.contains(x) {
            } else {
                if added.contains(x) {
                    let from = choose|from: int| 0 <= from < added.len() && added[from] == x;
                    assert(earlier[from] == x);
                }
                assert(entries.contains(x) || earlier.contains(x));
                assert(before.len() == LEADERBOARD_CAPACITY);
                assert forall|i: int| 0 <= i < after.len() implies (#[trigger] after[i]).score
                    >= x.score by {
                    if after[i] == entry {
                        lemma_rank_of(before, entry.score);
                        let rank = rank_of(before, entry.score);
                        before.insert_ensures(rank, entry);
                        let placed = before.insert(rank, entry);
                        assert(after == placed.take(LEADERBOARD_CAPACITY as int));
                        if rank < LEADERBOARD_CAPACITY {
                            assert(before[LEADERBOARD_CAPACITY - 1].score < entry.score);
                            assert(before[LEADERBOARD_CAPACITY - 1].score >= x.score);
                        } else {
                            assert(after =~= before);
                            assert(before[i].score >= x.score);
                        }
                    } else {
                        let at = choose|at: int| 0 <= at < before.len() && before[at] == after[i];
                        assert(before[at].score >= x.score);
                    }
                }
            }
        }
    }
}

/// Adding the entries of a board, in order, to an empty board gives the board
/// back.
pub proof fn lemma_with_entries_of_board(entries: Seq<LeaderboardEntry>)
    requires
        is_board(entries),
    ensures
        with_entries(Seq::empty(), entries) == entries,
    decreases entries.len(),
{
    if entries.len() > 0 {
        let earlier = entries.drop_last();
        assert(is_board(earlier)) by {
            assert forall|i: int, j: int| 0 <= i < j < earlier.len() implies (
            #[trigger] earlier[i]).score >= (#[trigger] earlier[j]).score by {
                assert(entries[i].score >= entries[j].score);
            }
        }
        lemma_with_entries_of_board(earlier);
        assert forall|i: int| 0 <= i < earlier.len() implies (#[trigger] earlier[i]).score
            >= entries.last().score by {
            assert(entries[i].score >= entries[entries.len() - 1].score);
        }
        lemma_rank_is(earlier, entries.last().score, earlier.len() as int);
        assert(earlier.insert(earlier.len() as int, entries.last()) =~= entries);
    }
}


/// The leaderboard.
pub struct Leaderboard {
    entries: Vec<LeaderboardEntry>,
}

impl View for Leaderboard {
    type V = Seq<LeaderboardEntry>;

    closed spec fn view(&self) -> Seq<LeaderboardEntry> {
        self.entries@
    }
}

impl Leaderboard {
    /// The invariant of the leaderboard: ordered from the highest score down,
    /// and within the capacity.
    pub open spec fn wf(&self) -> bool {
        is_board(self@)
    }

    /// An empty leaderboard.
    pub fn new() -> (board: Leaderboard)
        ensures
            board@ == Seq::<LeaderboardEntry>::empty(),
            board.wf(),
    {
        Leaderboard { entries: Vec::new() }
    }

    /// The entries, from the highest score down.
    pub fn entries(&self) -> (entries: &Vec<LeaderboardEntry>)
        ensures
            entries@ == self@,
    {
        &self.entries
    }

    /// Adds an entry behind every entry that has at least its score, and drops
    /// the last entry if the board then holds more than its capacity.
    pub fn add_entry(&mut self, score: u64, mode: PlayerMode, name: Initials)
        requires
            old(self).wf(),
        ensures
            final(self)@ == with_entry(old(self)@, (LeaderboardEntry { score, mode, name })),
            final(self).wf(),
    {
        let entry = LeaderboardEntry { score, mode, name };
        let mut rank: usize = 0;
        while rank < self.entries.len() && self.entries[rank].score >= score
            invariant
                rank <= self.entries@.len(),
                self@ == old(self)@,
                forall|i: int| 0 <= i < rank ==> (#[trigger] self.entries@[i]).score >= score,
            decreases self.entries@.len() - rank,
        {
            rank = rank + 1;
        }
        proof {
            assert forall|i: int| rank <= i < self@.len() implies (#[trigger] self@[i]).score
                < score by {
                assert(self@[rank as int].score >= self@[i].score);
            }
            lemma_rank_is(self@, score, rank as int);
            lemma_with_entry(self@, entry);
            self@.insert_ensures(rank as int, entry);
        }
        self.entries.insert(rank, entry);
        if self.entries.len() > LEADERBOARD_CAPACITY {
            self.entries.truncate(LEADERBOARD_CAPACITY);
        }
    }

    /// Builds a leaderboard from stored entries by adding them one after the
    /// other, so that whatever the list holds the result is ordered and within
    /// the capacity. The entries of a stored leaderboard come back as they were.
    pub fn restore(stored: &Vec<LeaderboardEntry>) -> (board: Leaderboard)
        ensures
            board@ == with_entries(Seq::empty(), stored@),
            board.wf(),
            is_board(stored@) ==> board@ == stored@,
    {
        let mut board = Leaderboard::new();
        let mut i: usize = 0;
        while i < stored.len()
            invariant
                i <= stored@.len(),
                board.wf(),
                board@ == with_entries(Seq::empty(), stored@.take(i as int)),
            decreases stored@.len() - i,
        {
            let entry: LeaderboardEntry = stored[i];
            assert(stored@.take(i + 1).drop_last() =~= stored@.take(i as int));
            board.add_entry(entry.score, entry.mode, entry.name);
            i = i + 1;
        }
        proof {
            assert(stored@.take(i as int) =~= stored@);
            if is_board(stored@) {
                lemma_with_entries_of_board(stored@);
            }
        }
        board
    }
}

} // verus!
