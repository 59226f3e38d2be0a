//! The two marks, board positions, and the board itself: a mapping from
//! positions to marks, stored as an association list with distinct keys and
//! modeled as a `Map<(int, int), Player>`.

use vstd::prelude::*;

verus! {

/// One of the two marks a player places on the board.
#[derive(Clone, Copy, Debug, PartialEq, Eq, Structural)]
pub enum Player {
    X,
    O,
}

/// The mark that moves after `p`.
pub open spec fn other(p: Player) -> Player {
    match p {
        Player::X => Player::O,
        Player::O => Player::X,
    }
}

/// A (column, row) coordinate pair identifying a board cell; on-board cells
/// have both coordinates in 1..=3, but any pair is addressable.
#[derive(Clone, Copy, Debug, PartialEq, Eq, Structural)]
pub struct Coord {
    pub x: usize,
    pub y: usize,
}

impl Coord {
    /// The mathematical key this coordinate denotes.
    pub open spec fn key(self) -> (int, int) {
        (self.x as int, self.y as int)
    }
}

/// The mark at key `k` of board `b`, or `None` for an empty cell.
pub open spec fn cell(b: Map<(int, int), Player>, x: int, y: int) -> Option<Player> {
    if b.contains_key((x, y)) {
        Some(b[(x, y)])
    } else {
        None
    }
}

/// A mapping from coordinates to marks; a position absent from the mapping is
/// empty. Keys are kept distinct.
pub struct Board {
    entries: Vec<(Coord, Player)>,
}

/// The mapping that an entry list denotes: later entries would win, but the
/// board keeps its keys distinct, so each key has one entry.
pub open spec fn map_of(s: Seq<(Coord, Player)>) -> Map<(int, int), Player>
    decreases s.len(),
{
    if s.len() == 0 {
        Map::empty()
    } else {
        map_of(s.drop_last()).insert(s.last().0.key(), s.last().1)
    }
}

/// No two entries share a coordinate.
pub open spec fn distinct_keys(s: Seq<(Coord, Player)>) -> bool {
    forall|i: int, j: int| 0 <= i < j < s.len() ==> s[i].0.key() != s[j].0.key()
}

/// A key is in the mapping exactly when some entry carries it.
pub proof fn lemma_map_of_contains(s: Seq<(Coord, Player)>, k: (int, int))
    ensures
        map_of(s).contains_key(k) <==> exists|i: int| 0 <= i < s.len() && s[i].0.key() == k,
    decreases s.len(),
{
    if s.len() > 0 {
        lemma_map_of_contains(s.drop_last(), k);
        if s.last().0.key() == k {
            assert(s[s.len() - 1].0.key() == k);
        } else if map_of(s).contains_key(k) {
            let i = choose|i: int| 0 <= i < s.drop_last().len() && s.drop_last()[i].0.key() == k;
            assert(s[i].0.key() == k);
        } else {
            assert forall|i: int| 0 <= i < s.len() && s[i].0.key() == k implies false by {
                assert(s.drop_last()[i].0.key() == k);
            }
        }
    }
}

/// With distinct keys, the mapping sends each entry's coordinate to its mark.
pub proof fn lemma_map_of_entry(s: Seq<(Coord, Player)>, i: int)
    requires
        distinct_keys(s),
        0 <= i < s.len(),
    ensures
        map_of(s).contains_key(s[i].0.key()),
        map_of(s)[s[i].0.key()] == s[i].1,
    decreases s.len(),
{
    if i == s.len() - 1 {
    } else {
        assert(distinct_keys(s.drop_last())) by {
            assert forall|a: int, b: int|
                0 <= a < b < s.drop_last().len() implies s.drop_last()[a].0.key()
                != s.drop_last()[b].0.key() by {
                assert(s[a].0.key() != s[b].0.key());
            }
        }
        assert(s.drop_last()[i] == s[i]);
        lemma_map_of_entry(s.drop_last(), i);
        assert(s[i].0.key() != s.last().0.key());
    }
}

impl Board {
    /// Entry coordinates are pairwise distinct.
    pub closed spec fn wf(&self) -> bool {
        distinct_keys(self.entries@)
    }

    /// An empty board.
    pub fn new() -> (b: Board)
        ensures
            b.wf(),
            b@ == Map::<(int, int), Player>::empty(),
    {
        Board { entries: Vec::new() }
    }

    /// The mark at `c`, or `None` if `c` is empty.
    pub fn get(&self, c: &Coord) -> (r: Option<Player>)
        requires
            self.wf(),
        ensures
            r == cell(self@, c.x as int, c.y as int),
    {
        let n = self.entries.len();
        let mut i: usize = 0;
        while i < n
            invariant
                n == self.entries@.len(),
                0 <= i <= n,
                self.wf(),
                forall|j: int| 0 <= j < i ==> self.entries@[j].0.key() != c.key(),
            decreases n - i,
        {
            let (ec, ep) = self.entries[i];
            if ec == *c {
                proof {
                    lemma_map_of_entry(self.entries@, i as int);
                }
                return Some(ep);
            }
            i = i + 1;
        }
        proof {
            lemma_map_of_contains(self.entries@, c.key());
        }
        None
    }

    /// Record mark `p` at the empty position `c`.
    pub fn insert(&mut self, c: Coord, p: Player)
        requires
            old(self).wf(),
            !old(self)@.contains_key(c.key()),
        ensures
            final(self).wf(),
            final(self)@ == old(self)@.insert(c.key(), p),
    {
        proof {
            lemma_map_of_contains(self.entries@, c.key());
        }
        self.entries.push((c, p));
        proof {
            assert(self.entries@.drop_last() =~= old(self).entries@);
            assert forall|i: int, j: int|
                0 <= i < j < self.entries@.len() implies self.entries@[i].0.key()
                != self.entries@[j].0.key() by {
                if j < self.entries@.len() - 1 {
                    assert(old(self).entries@[i].0.key() != old(self).entries@[j].0.key());
                } else {
                    assert(old(self).entries@[i] == self.entries@[i]);
                }
            }
        }
    }

    /// How many positions are occupied.
    pub fn len(&self) -> (n: usize)
        requires
            self.wf(),
        ensures
            n == self@.dom().len(),
    {
        proof {
            lemma_map_of_len(self.entries@);
        }
        self.entries.len()
    }
}

impl View for Board {
    type V = Map<(int, int), Player>;

    closed spec fn view(&self) -> Map<(int, int), Player> {
        map_of(self.entries@)
    }
}

/// With distinct keys, the mapping has as many keys as the list has entries.
pub proof fn lemma_map_of_len(s: Seq<(Coord, Player)>)
    requires
        distinct_keys(s),
    ensures
        map_of(s).dom().finite(),
        map_of(s).dom().len() == s.len(),
    decreases s.len(),
{
    if s.len() > 0 {
        assert(distinct_keys(s.drop_last())) by {
            assert forall|a: int, b: int|
                0 <= a < b < s.drop_last().len() implies s.drop_last()[a].0.key()
                != s.drop_last()[b].0.key() by {
                assert(s[a].0.key() != s[b].0.key());
            }
        }
        lemma_map_of_len(s.drop_last());
        lemma_map_of_contains(s.drop_last(), s.last().0.key());
        assert forall|i: int|
            0 <= i < s.drop_last().len() implies s.drop_last()[i].0.key()
            != s.last().0.key() by {
            assert(s[i].0.key() != s[s.len() - 1].0.key());
        }
        assert(!map_of(s.drop_last()).contains_key(s.last().0.key()));
        vstd::set::axiom_set_insert_len(map_of(s.drop_last()).dom(), s.last().0.key());
        assert(map_of(s).dom() =~= map_of(s.drop_last()).dom().insert(s.last().0.key()));
    }
}

} // verus!
