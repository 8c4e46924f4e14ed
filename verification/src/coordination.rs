//! The state a team of agents shares while exploring.
//!
//! One leader at a time, the leader's last action for followers to
//! mirror, the environment's hints (compass and grid size), the exit
//! position once discovered, and the jointly observed labyrinth map.
//! The structure itself is plain data: callers guard each field as
//! they see fit, and no atomicity across fields is promised.

use vstd::prelude::*;
use crate::codec::RadarCell;
use crate::message::{ActionData, HintData};

verus! {

/// The map a sequence of position/cell entries denotes, later entries
/// overriding earlier ones.
pub open spec fn cell_entries_map(s: Seq<((i32, i32), RadarCell)>) -> Map<(i32, i32), RadarCell>
    decreases s.len(),
{
    if s.len() == 0 {
        Map::empty()
    } else {
        cell_entries_map(s.drop_last()).insert(s.last().0, s.last().1)
    }
}

proof fn lemma_cell_entries_absent(s: Seq<((i32, i32), RadarCell)>, key: (i32, i32))
    requires
        forall|i: int| 0 <= i < s.len() ==> (#[trigger] s[i]).0 != key,
    ensures
        !cell_entries_map(s).contains_key(key),
    decreases s.len(),
{
    if s.len() > 0 {
        assert(s[s.len() - 1].0 != key);
        lemma_cell_entries_absent(s.drop_last(), key);
    }
}

proof fn lemma_cell_entries_found(s: Seq<((i32, i32), RadarCell)>, i: int)
    requires
        forall|p: int, q: int| 0 <= p < q < s.len() ==> (#[trigger] s[p]).0 != (#[trigger] s[q]).0,
        0 <= i < s.len(),
    ensures
        cell_entries_map(s).contains_key(s[i].0),
        cell_entries_map(s)[s[i].0] == s[i].1,
    decreases s.len(),
{
    if i < s.len() - 1 {
        lemma_cell_entries_found(s.drop_last(), i);
        assert(s[s.len() - 1].0 != s[i].0);
    }
}

proof fn lemma_cell_entries_update(s: Seq<((i32, i32), RadarCell)>, i: int, value: RadarCell)
    requires
        forall|p: int, q: int| 0 <= p < q < s.len() ==> (#[trigger] s[p]).0 != (#[trigger] s[q]).0,
        0 <= i < s.len(),
    ensures
        cell_entries_map(s.update(i, (s[i].0, value))) =~= cell_entries_map(s).insert(
            s[i].0,
            value,
        ),
    decreases s.len(),
{
    let key = s[i].0;
    let t = s.update(i, (key, value));
    if i == s.len() - 1 {
        assert(t.drop_last() =~= s.drop_last());
        assert(t.last() == (key, value));
    } else {
        lemma_cell_entries_update(s.drop_last(), i, value);
        assert(t.drop_last() =~= s.drop_last().update(i, (key, value)));
        assert(t.last() == s.last());
        assert(s[s.len() - 1].0 != key);
        assert(cell_entries_map(t) =~= cell_entries_map(s).insert(key, value));
    }
}

/// Finds the entry holding `position`, if there is one.
fn find_cell(entries: &Vec<((i32, i32), RadarCell)>, position: (i32, i32)) -> (r: Option<usize>)
    ensures
        r matches Some(i) ==> i < entries@.len() && entries@[i as int].0 == position,
        r is None ==> forall|k: int|
            0 <= k < entries@.len() ==> (#[trigger] entries@[k]).0 != position,
{
    let n = entries.len();
    let mut i: usize = 0;
    while i < n
        invariant
            i <= n,
            n == entries@.len(),
            forall|k: int| 0 <= k < i ==> (#[trigger] entries@[k]).0 != position,
        decreases n - i,
    {
        let key = entries[i].0;
        if key.0 == position.0 && key.1 == position.1 {
            return Some(i);
        }
        i = i + 1;
    }
    None
}

/// The jointly observed labyrinth: the last cell classification seen
/// at each absolute position. Entries are only ever added or
/// overwritten, never pruned.
pub struct CellMap {
    entries: Vec<((i32, i32), RadarCell)>,
}

impl View for CellMap {
    type V = Map<(i32, i32), RadarCell>;

    closed spec fn view(&self) -> Map<(i32, i32), RadarCell> {
        cell_entries_map(self.entries@)
    }
}

impl CellMap {
    #[verifier::type_invariant]
    spec fn distinct_keys(&self) -> bool {
        forall|p: int, q: int|
            0 <= p < q < self.entries@.len() ==> (#[trigger] self.entries@[p]).0 != (
            #[trigger] self.entries@[q]).0
    }

    /// An empty map.
    pub fn new() -> (r: CellMap)
        ensures
            r@ == Map::<(i32, i32), RadarCell>::empty(),
    {
        CellMap { entries: Vec::new() }
    }

    /// The last cell classification observed at a position, if any.
    pub fn get(&self, position: (i32, i32)) -> (r: Option<RadarCell>)
        ensures
            r == if self@.contains_key(position) {
                Some(self@[position])
            } else {
                None::<RadarCell>
            },
    {
        proof {
            use_type_invariant(&*self);
        }
        match find_cell(&self.entries, position) {
            Some(i) => {
                proof {
                    lemma_cell_entries_found(self.entries@, i as int);
                }
                Some(self.entries[i].1)
            },
            None => {
                proof {
                    lemma_cell_entries_absent(self.entries@, position);
                }
                None
            },
        }
    }

    /// Records the cell classification observed at a position,
    /// overwriting what was there.
    pub fn insert(&mut self, position: (i32, i32), cell: RadarCell)
        ensures
            final(self)@ == old(self)@.insert(position, cell),
    {
        proof {
            use_type_invariant(&*self);
        }
        let mut entries: Vec<((i32, i32), RadarCell)> = Vec::new();
        core::mem::swap(&mut entries, &mut self.entries);
        match find_cell(&entries, position) {
            Some(i) => {
                proof {
                    lemma_cell_entries_update(entries@, i as int, cell);
                }
                entries.set(i, (position, cell));
            },
            None => {
                proof {
                    let pushed = entries@.push((position, cell));
                    assert(pushed.drop_last() =~= entries@);
                }
                entries.push((position, cell));
            },
        }
        core::mem::swap(&mut entries, &mut self.entries);
    }

    /// How many positions have been observed.
    pub fn len(&self) -> (r: usize)
        ensures
            r >= 0,
    {
        self.entries.len()
    }
}

/// The shared coordination state of the team.
pub struct CoordinationState {
    /// The designated leader, when one has been elected.
    pub leader_id: Option<u32>,
    /// The leader's most recent action, for followers to mirror.
    pub leader_last_action: Option<ActionData>,
    /// The latest compass hint, in tenths of a degree.
    pub compass_decidegrees: Option<i64>,
    /// The latest grid-size hint: columns and rows.
    pub grid_size: Option<(u32, u32)>,
    /// The exit's absolute position, once discovered.
    pub exit_position: Option<(i32, i32)>,
    /// The jointly observed labyrinth map.
    pub labyrinth_map: CellMap,
}

impl CoordinationState {
    /// A fresh state: nothing known, nobody leading.
    pub fn new() -> (r: CoordinationState)
        ensures
            r.leader_id is None,
            r.leader_last_action is None,
            r.compass_decidegrees is None,
            r.grid_size is None,
            r.exit_position is None,
            r.labyrinth_map@ == Map::<(i32, i32), RadarCell>::empty(),
    {
        CoordinationState {
            leader_id: None,
            leader_last_action: None,
            compass_decidegrees: None,
            grid_size: None,
            exit_position: None,
            labyrinth_map: CellMap::new(),
        }
    }

    /// Records a compass hint. The reporting agent becomes leader if
    /// nobody leads yet; an existing leader keeps the role.
    pub fn record_compass(&mut self, player_id: u32, angle_decidegrees: i64)
        ensures
            final(self).compass_decidegrees == Some(angle_decidegrees),
            final(self).leader_id == if old(self).leader_id is None {
                Some(player_id)
            } else {
                old(self).leader_id
            },
            final(self).leader_last_action == old(self).leader_last_action,
            final(self).grid_size == old(self).grid_size,
            final(self).exit_position == old(self).exit_position,
            final(self).labyrinth_map == old(self).labyrinth_map,
    {
        self.compass_decidegrees = Some(angle_decidegrees);
        if self.leader_id.is_none() {
            self.leader_id = Some(player_id);
        }
    }

    /// Records a grid-size hint, overwriting the previous one.
    pub fn record_grid_size(&mut self, columns: u32, rows: u32)
        ensures
            final(self).grid_size == Some((columns, rows)),
            final(self).leader_id == old(self).leader_id,
            final(self).leader_last_action == old(self).leader_last_action,
            final(self).compass_decidegrees == old(self).compass_decidegrees,
            final(self).exit_position == old(self).exit_position,
            final(self).labyrinth_map == old(self).labyrinth_map,
    {
        self.grid_size = Some((columns, rows));
    }

    /// Records a discovered exit position. Once set it is only ever
    /// replaced by a fresh observation, never cleared.
    pub fn record_exit(&mut self, position: (i32, i32))
        ensures
            final(self).exit_position == Some(position),
            final(self).leader_id == old(self).leader_id,
            final(self).leader_last_action == old(self).leader_last_action,
            final(self).compass_decidegrees == old(self).compass_decidegrees,
            final(self).grid_size == old(self).grid_size,
            final(self).labyrinth_map == old(self).labyrinth_map,
    {
        self.exit_position = Some(position);
    }

    /// Records the cell classification observed at an absolute
    /// position in the shared map.
    pub fn record_cell(&mut self, position: (i32, i32), cell: RadarCell)
        ensures
            final(self).labyrinth_map@ == old(self).labyrinth_map@.insert(position, cell),
            final(self).leader_id == old(self).leader_id,
            final(self).leader_last_action == old(self).leader_last_action,
            final(self).compass_decidegrees == old(self).compass_decidegrees,
            final(self).grid_size == old(self).grid_size,
            final(self).exit_position == old(self).exit_position,
    {
        let mut map = CellMap::new();
        core::mem::swap(&mut map, &mut self.labyrinth_map);
        map.insert(position, cell);
        core::mem::swap(&mut map, &mut self.labyrinth_map);
    }

    /// Publishes the leader's chosen action for followers to mirror.
    pub fn record_leader_action(&mut self, action: ActionData)
        ensures
            final(self).leader_last_action == Some(action),
            final(self).leader_id == old(self).leader_id,
            final(self).compass_decidegrees == old(self).compass_decidegrees,
            final(self).grid_size == old(self).grid_size,
            final(self).exit_position == old(self).exit_position,
            final(self).labyrinth_map == old(self).labyrinth_map,
    {
        self.leader_last_action = Some(action);
    }

    /// Settles which algorithm this agent runs this turn, updating
    /// the leader seat on the way.
    ///
    /// A lone agent clears the seat and runs the full leader
    /// algorithm regardless. Otherwise an existing leader keeps the
    /// seat, and when nobody holds it the calling agent elects
    /// itself. The result says whether to run the leader algorithm.
    pub fn resolve_role(&mut self, player_id: u32, connected_players: u32) -> (leads: bool)
        ensures
            final(self).leader_id == if connected_players == 1 {
                None::<u32>
            } else if old(self).leader_id is None {
                Some(player_id)
            } else {
                old(self).leader_id
            },
            leads == (connected_players == 1 || old(self).leader_id is None || old(
                self,
            ).leader_id == Some(player_id)),
            final(self).leader_last_action == old(self).leader_last_action,
            final(self).compass_decidegrees == old(self).compass_decidegrees,
            final(self).grid_size == old(self).grid_size,
            final(self).exit_position == old(self).exit_position,
            final(self).labyrinth_map == old(self).labyrinth_map,
    {
        if connected_players == 1 {
            self.leader_id = None;
            true
        } else {
            match self.leader_id {
                Some(id) => id == player_id,
                None => {
                    self.leader_id = Some(player_id);
                    true
                },
            }
        }
    }
}

/// Applies one hint to the shared state: a compass hint updates the
/// angle and may elect the reporter leader, a grid-size hint updates
/// the grid, and every other hint leaves the state untouched (secret
/// values are routed to the team's challenge bookkeeping by the
/// caller).
pub fn handle_hint(player_id: u32, hint_data: &HintData, state: &mut CoordinationState)
    ensures
        match *hint_data {
            HintData::RelativeCompass { angle_decidegrees } => {
                &&& final(state).compass_decidegrees == Some(angle_decidegrees)
                &&& final(state).leader_id == if old(state).leader_id is None {
                    Some(player_id)
                } else {
                    old(state).leader_id
                }
                &&& final(state).leader_last_action == old(state).leader_last_action
                &&& final(state).grid_size == old(state).grid_size
                &&& final(state).exit_position == old(state).exit_position
                &&& final(state).labyrinth_map == old(state).labyrinth_map
            },
            HintData::GridSize { columns, rows } => {
                &&& final(state).grid_size == Some((columns, rows))
                &&& final(state).leader_id == old(state).leader_id
                &&& final(state).leader_last_action == old(state).leader_last_action
                &&& final(state).compass_decidegrees == old(state).compass_decidegrees
                &&& final(state).exit_position == old(state).exit_position
                &&& final(state).labyrinth_map == old(state).labyrinth_map
            },
            _ => *final(state) == *old(state),
        },
{
    match hint_data {
        HintData::RelativeCompass { angle_decidegrees } => {
            state.record_compass(player_id, *angle_decidegrees);
        },
        HintData::GridSize { columns, rows } => {
            state.record_grid_size(*columns, *rows);
        },
        _ => {},
    }
}

} // verus!
