//! A lightweight per-player memory: the last few positions, and a
//! duplicate test over them as a simple looping signal.

use vstd::prelude::*;
use crate::direction::RelativeDirection;

verus! {

/// How many positions the short memory keeps.
pub const MEMORY_CAPACITY: usize = 5;

/// True when some position occurs twice in the sequence.
pub open spec fn has_duplicates(s: Seq<(i32, i32)>) -> bool {
    exists|i: int, j: int| 0 <= i < j < s.len() && s[i] == s[j]
}

/// A short memory of where one player has just been.
pub struct PlayerMemory {
    history: Vec<(i32, i32)>,
    last_direction: Option<RelativeDirection>,
}

impl PlayerMemory {
    /// The remembered positions, oldest first.
    pub closed spec fn history(&self) -> Seq<(i32, i32)> {
        self.history@
    }

    /// The direction of the most recent recorded move.
    pub closed spec fn spec_last_direction(&self) -> Option<RelativeDirection> {
        self.last_direction
    }

    /// An empty memory.
    pub fn new() -> (r: PlayerMemory)
        ensures
            r.history() == Seq::<(i32, i32)>::empty(),
            r.spec_last_direction() is None,
    {
        PlayerMemory { history: Vec::new(), last_direction: None }
    }

    /// Remembers one more position, evicting the oldest beyond five.
    pub fn update_position(&mut self, new_position: (i32, i32))
        ensures
            final(self).history() == if old(self).history().len() >= MEMORY_CAPACITY {
                old(self).history().subrange(1, old(self).history().len() as int).push(
                    new_position,
                )
            } else {
                old(self).history().push(new_position)
            },
            final(self).spec_last_direction() == old(self).spec_last_direction(),
    {
        if self.history.len() >= MEMORY_CAPACITY {
            self.history.remove(0);
        }
        self.history.push(new_position);
    }

    /// Records the direction of the latest move.
    pub fn set_last_direction(&mut self, direction: RelativeDirection)
        ensures
            final(self).history() == old(self).history(),
            final(self).spec_last_direction() == Some(direction),
    {
        self.last_direction = Some(direction);
    }

    /// The direction of the most recent recorded move.
    pub fn last_direction(&self) -> (r: Option<RelativeDirection>)
        ensures
            r == self.spec_last_direction(),
    {
        self.last_direction
    }

    /// How many positions are remembered.
    pub fn history_len(&self) -> (r: usize)
        ensures
            r == self.history().len(),
    {
        self.history.len()
    }

    /// True when the remembered positions are not pairwise distinct,
    /// that is, the player has revisited somewhere recently.
    pub fn is_looping(&self) -> (r: bool)
        ensures
            r == has_duplicates(self.history()),
    {
        let n = self.history.len();
        let mut i: usize = 0;
        while i < n
            invariant
                i <= n,
                n == self.history@.len(),
                forall|p: int, q: int|
                    0 <= p < q < n && p < i ==> self.history@[p] != self.history@[q],
            decreases n - i,
        {
            let a = self.history[i];
            let mut j: usize = i + 1;
            while j < n
                invariant
                    i < j <= n,
                    n == self.history@.len(),
                    a == self.history@[i as int],
                    forall|q: int| i < q < j ==> self.history@[i as int] != self.history@[q],
                decreases n - j,
            {
                let b = self.history[j];
                if a.0 == b.0 && a.1 == b.1 {
                    return true;
                }
                j = j + 1;
            }
            i = i + 1;
        }
        false
    }
}

} // verus!
