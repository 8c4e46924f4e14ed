//! Exploration memory: visit counts and a bounded recent history.
//!
//! Each agent records how often it has stood on every position and
//! keeps the eight most recent positions. A position counts as
//! "recently visited" — the loop signal — once at least five positions
//! have been recorded and the position appears in the history anywhere
//! but the most recently appended slot.

use vstd::prelude::*;
use crate::direction::RelativeDirection;

verus! {

/// How many recent positions the tracker keeps.
pub const HISTORY_CAPACITY: usize = 8;

/// How many recorded positions it takes before the loop signal may
/// fire at all.
pub const LOOP_DETECTION_THRESHOLD: usize = 5;

/// The map a sequence of key/value entries denotes, later entries
/// overriding earlier ones.
pub open spec fn entries_map(s: Seq<((i32, i32), u64)>) -> Map<(i32, i32), u64>
    decreases s.len(),
{
    if s.len() == 0 {
        Map::empty()
    } else {
        entries_map(s.drop_last()).insert(s.last().0, s.last().1)
    }
}

/// Visit counts per position, keyed by team-local coordinates.
///
/// Abstractly this is a map from position to count; concretely it is a
/// vector of entries with pairwise distinct keys.
pub struct VisitCounts {
    entries: Vec<((i32, i32), u64)>,
}

impl View for VisitCounts {
    type V = Map<(i32, i32), u64>;

    closed spec fn view(&self) -> Map<(i32, i32), u64> {
        entries_map(self.entries@)
    }
}

/// A key that appears in no entry is outside the denoted map.
proof fn lemma_entries_map_absent(s: Seq<((i32, i32), u64)>, key: (i32, i32))
    requires
        forall|i: int| 0 <= i < s.len() ==> (#[trigger] s[i]).0 != key,
    ensures
        !entries_map(s).contains_key(key),
    decreases s.len(),
{
    if s.len() > 0 {
        assert(s[s.len() - 1].0 != key);
        lemma_entries_map_absent(s.drop_last(), key);
    }
}

/// Under distinct keys, every entry is reflected verbatim in the
/// denoted map.
proof fn lemma_entries_map_found(s: Seq<((i32, i32), u64)>, i: int)
    requires
        forall|p: int, q: int| 0 <= p < q < s.len() ==> (#[trigger] s[p]).0 != (#[trigger] s[q]).0,
        0 <= i < s.len(),
    ensures
        entries_map(s).contains_key(s[i].0),
        entries_map(s)[s[i].0] == s[i].1,
    decreases s.len(),
{
    if i < s.len() - 1 {
        lemma_entries_map_found(s.drop_last(), i);
        assert(s[s.len() - 1].0 != s[i].0);
    }
}

/// Overwriting the entry that holds `key` updates the denoted map at
/// `key` alone.
proof fn lemma_entries_map_update(s: Seq<((i32, i32), u64)>, i: int, value: u64)
    requires
        forall|p: int, q: int| 0 <= p < q < s.len() ==> (#[trigger] s[p]).0 != (#[trigger] s[q]).0,
        0 <= i < s.len(),
    ensures
        entries_map(s.update(i, (s[i].0, value))) =~= entries_map(s).insert(s[i].0, value),
    decreases s.len(),
{
    let key = s[i].0;
    let t = s.update(i, (key, value));
    if i == s.len() - 1 {
        assert(t.drop_last() =~= s.drop_last());
        assert(t.last() == (key, value));
    } else {
        lemma_entries_map_update(s.drop_last(), i, value);
        assert(t.drop_last() =~= s.drop_last().update(i, (key, value)));
        assert(t.last() == s.last());
        assert(s[s.len() - 1].0 != key);
        assert(entries_map(t) =~= entries_map(s).insert(key, value));
    }
}

/// Finds the entry holding `position`, if there is one.
fn find_entry(entries: &Vec<((i32, i32), u64)>, position: (i32, i32)) -> (r: Option<usize>)
    ensures
        r matches Some(i) ==> i < entries@.len() && entries@[i as int].0 == position,
        r is None ==> forall|k: int|
            0 <= k < entries@.len() ==> (#[trigger] entries@[k]).0 != position,
{
    let n = entries.len();
    let mut i: usize = 0;
    while i < n
        invariant
            i <= n,
            n == entries@.len(),
            forall|k: int| 0 <= k < i ==> (#[trigger] entries@[k]).0 != position,
        decreases n - i,
    {
        let key = entries[i].0;
        if key.0 == position.0 && key.1 == position.1 {
            return Some(i);
        }
        i = i + 1;
    }
    None
}

impl VisitCounts {
    #[verifier::type_invariant]
    spec fn distinct_keys(&self) -> bool {
        forall|p: int, q: int|
            0 <= p < q < self.entries@.len() ==> (#[trigger] self.entries@[p]).0 != (
            #[trigger] self.entries@[q]).0
    }

    /// An empty table of visit counts.
    pub fn new() -> (r: VisitCounts)
        ensures
            r@ == Map::<(i32, i32), u64>::empty(),
    {
        VisitCounts { entries: Vec::new() }
    }

    /// True when no position has been counted yet.
    pub fn is_empty(&self) -> (r: bool)
        ensures
            r == (self@ =~= Map::<(i32, i32), u64>::empty()),
    {
        proof {
            use_type_invariant(&*self);
            if self.entries@.len() > 0 {
                lemma_entries_map_found(self.entries@, 0);
            } else {
                assert(self@ =~= Map::<(i32, i32), u64>::empty());
            }
        }
        self.entries.len() == 0
    }

    /// Looks a position up, returning its count if it was ever
    /// recorded.
    pub fn get(&self, position: (i32, i32)) -> (r: Option<u64>)
        ensures
            r == if self@.contains_key(position) {
                Some(self@[position])
            } else {
                None::<u64>
            },
    {
        proof {
            use_type_invariant(&*self);
        }
        match find_entry(&self.entries, position) {
            Some(i) => {
                proof {
                    lemma_entries_map_found(self.entries@, i as int);
                }
                Some(self.entries[i].1)
            },
            None => {
                proof {
                    lemma_entries_map_absent(self.entries@, position);
                }
                None
            },
        }
    }

    /// The recorded count of a position, zero when it was never
    /// recorded.
    pub fn count(&self, position: (i32, i32)) -> (r: u64)
        ensures
            r == spec_count(self@, position),
    {
        match self.get(position) {
            Some(n) => n,
            None => 0,
        }
    }

    /// Sets the count of a position, adding the position if needed.
    pub fn insert(&mut self, position: (i32, i32), count: u64)
        ensures
            final(self)@ == old(self)@.insert(position, count),
    {
        proof {
            use_type_invariant(&*self);
        }
        let mut entries: Vec<((i32, i32), u64)> = Vec::new();
        core::mem::swap(&mut entries, &mut self.entries);
        match find_entry(&entries, position) {
            Some(i) => {
                proof {
                    lemma_entries_map_update(entries@, i as int, count);
                }
                entries.set(i, (position, count));
            },
            None => {
                proof {
                    let pushed = entries@.push((position, count));
                    assert(pushed.drop_last() =~= entries@);
                }
                entries.push((position, count));
            },
        }
        core::mem::swap(&mut entries, &mut self.entries);
    }

    /// Adds one visit to a position, saturating at the counter's
    /// maximum.
    pub fn record_visit(&mut self, position: (i32, i32))
        ensures
            final(self)@ == old(self)@.insert(
                position,
                saturating_increment(spec_count(old(self)@, position)),
            ),
    {
        let current = self.count(position);
        let next = if current < u64::MAX {
            current + 1
        } else {
            current
        };
        self.insert(position, next);
    }
}

/// The recent history after appending one more position: the new
/// position goes to the back and, past eight entries, the oldest one
/// falls off the front.
pub open spec fn pushed_history(h: Seq<(i32, i32)>, position: (i32, i32)) -> Seq<(i32, i32)> {
    let grown = h.push(position);
    if grown.len() > HISTORY_CAPACITY {
        grown.subrange(1, grown.len() as int)
    } else {
        grown
    }
}

/// Exploration memory of one agent (or of a team sharing it): visit
/// counts per position, the bounded recent history, and the last
/// direction taken.
pub struct ExplorationTracker {
    visited_positions: VisitCounts,
    last_positions: Vec<(i32, i32)>,
    last_direction: Option<RelativeDirection>,
}

/// The loop signal: a position counts as recently visited once at
/// least five positions are on record and it appears in the history
/// anywhere but the most recently appended slot.
pub open spec fn recently_visited(history: Seq<(i32, i32)>, position: (i32, i32)) -> bool {
    &&& history.len() >= LOOP_DETECTION_THRESHOLD
    &&& history.subrange(0, history.len() - 1).contains(position)
}

impl ExplorationTracker {
    #[verifier::type_invariant]
    spec fn history_bounded(&self) -> bool {
        self.last_positions@.len() <= 8
    }

    /// The visit counts on record, as a map from position to count.
    pub closed spec fn counts(&self) -> Map<(i32, i32), u64> {
        self.visited_positions@
    }

    /// The recent positions, oldest first.
    pub closed spec fn history(&self) -> Seq<(i32, i32)> {
        self.last_positions@
    }

    /// The direction of the most recent recorded move.
    pub closed spec fn spec_last_direction(&self) -> Option<RelativeDirection> {
        self.last_direction
    }

    /// A tracker with no memory at all.
    pub fn new() -> (r: ExplorationTracker)
        ensures
            r.counts() == Map::<(i32, i32), u64>::empty(),
            r.history() == Seq::<(i32, i32)>::empty(),
            r.spec_last_direction() is None,
    {
        ExplorationTracker {
            visited_positions: VisitCounts::new(),
            last_positions: Vec::new(),
            last_direction: None,
        }
    }

    /// Records a move: one more visit for the position reached, the
    /// position appended to the recent history (evicting the oldest
    /// entry beyond eight), and the direction remembered.
    pub fn mark_position(&mut self, position: (i32, i32), direction: RelativeDirection)
        ensures
            final(self).counts() == old(self).counts().insert(
                position,
                saturating_increment(spec_count(old(self).counts(), position)),
            ),
            final(self).history() == pushed_history(old(self).history(), position),
            final(self).history().len() <= 8,
            final(self).spec_last_direction() == Some(direction),
    {
        proof {
            use_type_invariant(&*self);
        }
        let mut counts = VisitCounts::new();
        core::mem::swap(&mut counts, &mut self.visited_positions);
        counts.record_visit(position);
        core::mem::swap(&mut counts, &mut self.visited_positions);
        let mut positions: Vec<(i32, i32)> = Vec::new();
        core::mem::swap(&mut positions, &mut self.last_positions);
        positions.push(position);
        if positions.len() > HISTORY_CAPACITY {
            positions.remove(0);
        }
        core::mem::swap(&mut positions, &mut self.last_positions);
        self.last_direction = Some(direction);
    }

    /// Tests the loop signal for a position.
    pub fn is_recently_visited(&self, position: (i32, i32)) -> (r: bool)
        ensures
            r == recently_visited(self.history(), position),
    {
        let n = self.last_positions.len();
        if n < LOOP_DETECTION_THRESHOLD {
            return false;
        }
        let mut i: usize = 0;
        while i < n - 1
            invariant
                n == self.last_positions@.len(),
                5 <= n,
                i <= n - 1,
                forall|k: int| 0 <= k < i ==> self.last_positions@[k] != position,
            decreases n - i,
        {
            let p = self.last_positions[i];
            if p.0 == position.0 && p.1 == position.1 {
                assert(self.history().subrange(0, self.history().len() - 1)[i as int]
                    == position);
                return true;
            }
            i = i + 1;
        }
        proof {
            let head = self.history().subrange(0, self.history().len() - 1);
            assert(forall|k: int| 0 <= k < head.len() ==> head[k] != position);
        }
        false
    }

    /// How many positions the recent history holds.
    pub fn history_len(&self) -> (r: usize)
        ensures
            r == self.history().len(),
    {
        self.last_positions.len()
    }

    /// Whether a position is anywhere in the recent history.
    pub fn history_contains(&self, position: (i32, i32)) -> (r: bool)
        ensures
            r == self.history().contains(position),
    {
        let n = self.last_positions.len();
        let mut i: usize = 0;
        while i < n
            invariant
                n == self.last_positions@.len(),
                i <= n,
                forall|k: int| 0 <= k < i ==> self.last_positions@[k] != position,
            decreases n - i,
        {
            let p = self.last_positions[i];
            if p.0 == position.0 && p.1 == position.1 {
                return true;
            }
            i = i + 1;
        }
        false
    }

    /// The direction of the most recent recorded move.
    pub fn last_direction(&self) -> (r: Option<RelativeDirection>)
        ensures
            r == self.spec_last_direction(),
    {
        self.last_direction
    }

    /// The recorded count of a position, zero when it was never
    /// visited.
    pub fn visit_count(&self, position: (i32, i32)) -> (r: u64)
        ensures
            r == spec_count(self.counts(), position),
    {
        self.visited_positions.count(position)
    }

    /// Looks a position up in the visit counts.
    pub fn get_visit_count(&self, position: (i32, i32)) -> (r: Option<u64>)
        ensures
            r == if self.counts().contains_key(position) {
                Some(self.counts()[position])
            } else {
                None::<u64>
            },
    {
        self.visited_positions.get(position)
    }

    /// Overwrites the count on record for a position, leaving history
    /// and last direction alone.
    pub fn set_visit_count(&mut self, position: (i32, i32), count: u64)
        ensures
            final(self).counts() == old(self).counts().insert(position, count),
            final(self).history() == old(self).history(),
            final(self).spec_last_direction() == old(self).spec_last_direction(),
    {
        proof {
            use_type_invariant(&*self);
        }
        let mut counts = VisitCounts::new();
        core::mem::swap(&mut counts, &mut self.visited_positions);
        counts.insert(position, count);
        core::mem::swap(&mut counts, &mut self.visited_positions);
    }

    /// True when no position has been visited yet.
    pub fn visited_is_empty(&self) -> (r: bool)
        ensures
            r == (self.counts() =~= Map::<(i32, i32), u64>::empty()),
    {
        self.visited_positions.is_empty()
    }
}

/// True when `after` is `before` with exactly one move recorded: one
/// more visit at `position`, the position appended to the recent
/// history, and the direction remembered.
pub open spec fn marked(
    before: ExplorationTracker,
    after: ExplorationTracker,
    position: (i32, i32),
    direction: RelativeDirection,
) -> bool {
    &&& after.counts() == before.counts().insert(
        position,
        saturating_increment(spec_count(before.counts(), position)),
    )
    &&& after.history() == pushed_history(before.history(), position)
    &&& after.spec_last_direction() == Some(direction)
}

/// The loop signal stays quiet, for every position, until at least
/// five positions have been recorded.
pub proof fn lemma_loop_signal_needs_history(history: Seq<(i32, i32)>, position: (i32, i32))
    requires
        history.len() < LOOP_DETECTION_THRESHOLD,
    ensures
        !recently_visited(history, position),
{
}

/// The count a map records for a position, zero when absent.
pub open spec fn spec_count(m: Map<(i32, i32), u64>, position: (i32, i32)) -> u64 {
    if m.contains_key(position) {
        m[position]
    } else {
        0
    }
}

/// One more than `n`, capped at the counter's maximum.
pub open spec fn saturating_increment(n: u64) -> u64 {
    if n < u64::MAX {
        (n + 1) as u64
    } else {
        n
    }
}

} // verus!
