use crate::document::Position;
use crate::editor::Key;
use vstd::prelude::*;

verus! {

/// The way the last jump between matches went.
#[derive(PartialEq, Eq, Structural, Clone, Copy, Debug)]
pub enum Direction {
    Forward,
    Backward,
}

/// The matches of a committed search and the one that is current.
pub struct SearchState {
    pub positions: Vec<Position>,
    pub index: usize,
    pub direction: Direction,
    /// Number of clusters of the query, the width marked at each match.
    pub query_width: usize,
}

/// The match index after `key`: `n` goes back, `N` goes on, both stopping at
/// the ends; other keys leave it.
pub open spec fn stepped(i: int, count: int, key: Key) -> int {
    if key == Key::Char('n') {
        if i > 0 {
            i - 1
        } else {
            0
        }
    } else if key == Key::Char('N') {
        if i + 1 < count {
            i + 1
        } else {
            count - 1
        }
    } else {
        i
    }
}

/// The match index after each key of `keys` in turn.
pub open spec fn steps(i: int, count: int, keys: Seq<Key>) -> int
    decreases keys.len(),
{
    if keys.len() == 0 {
        i
    } else {
        stepped(steps(i, count, keys.drop_last()), count, keys.last())
    }
}

/// Whether `key` ends the search.
pub open spec fn ends_search(key: Key) -> bool {
    key == Key::Char('\n') || key == Key::Esc
}

impl SearchState {
    pub open spec fn wf(&self) -> bool {
        0 <= self.index < self.positions@.len()
    }

    /// Handles one key; returns false when the key ends the search.
    pub fn step(&mut self, key: Key) -> (r: bool)
        requires
            old(self).wf(),
        ensures
            final(self).wf(),
            r == !ends_search(key),
            final(self).positions == old(self).positions,
            final(self).query_width == old(self).query_width,
            r ==> final(self).index == stepped(
                old(self).index as int,
                old(self).positions@.len() as int,
                key,
            ),
            !r ==> final(self).index == old(self).index,
            final(self).direction == (if key == Key::Char('n') {
                Direction::Backward
            } else if key == Key::Char('N') {
                Direction::Forward
            } else {
                old(self).direction
            }),
    {
        match key {
            Key::Char('n') => {
                if self.index > 0 {
                    self.index = self.index - 1;
                }
                self.direction = Direction::Backward;
            },
            Key::Char('N') => {
                if self.index < self.positions.len() - 1 {
                    self.index = self.index + 1;
                }
                self.direction = Direction::Forward;
            },
            Key::Char('\n') | Key::Esc => {
                return false;
            },
            _ => {},
        }
        true
    }
}

/// However many times `n` and `N` are pressed, the match index stays within
/// `0..count`.
pub proof fn lemma_steps_in_range(i: int, count: int, keys: Seq<Key>)
    requires
        0 <= i < count,
    ensures
        0 <= steps(i, count, keys) < count,
    decreases keys.len(),
{
    if keys.len() > 0 {
        lemma_steps_in_range(i, count, keys.drop_last());
    }
}

} // verus!
