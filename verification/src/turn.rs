//! One full turn of an agent, from encoded radar string to movement
//! action.
//!
//! The transport layer hands in the encoded snapshot, the shared
//! coordination state, the agent's exploration memory and the shared
//! position table; this module decodes, folds the observations into
//! the shared map, settles the agent's role, chooses the action and
//! applies the speculative position update. A snapshot that fails to
//! decode skips the turn and leaves every piece of state exactly as
//! it was.

use vstd::prelude::*;
use std::collections::HashMap;
use crate::codec::{decode_and_format, decode_ok, radar_model_of_str, RadarCell, RadarSpec};
use crate::coordination::CoordinationState;
use crate::direction::can_step_all;
use crate::message::ActionData;
use crate::navigation::{
    absolute_cell, compute_absolute_position, follower_choose_action, follower_decision, interior,
    leader_choose_action, leader_decision, step_pos, update_player_position,
};
use crate::tracker::{marked, ExplorationTracker};

verus! {

broadcast use vstd::std_specs::hash::group_hash_axioms;

/// The shared labyrinth map after folding in the first `n` cells of a
/// snapshot taken at `pos`.
pub open spec fn observed_cells(
    m: Map<(i32, i32), RadarCell>,
    pos: (i32, i32),
    cells: Seq<RadarCell>,
    n: int,
) -> Map<(i32, i32), RadarCell>
    decreases n,
{
    if n <= 0 {
        m
    } else {
        observed_cells(m, pos, cells, n - 1).insert(absolute_cell(pos, n - 1), cells[n - 1])
    }
}

/// The shared exit position after scanning the first `n` cells of a
/// snapshot taken at `pos`: the last exit cell seen wins, and with
/// none in sight the previous value stays.
pub open spec fn observed_exit(
    e: Option<(i32, i32)>,
    pos: (i32, i32),
    cells: Seq<RadarCell>,
    n: int,
) -> Option<(i32, i32)>
    decreases n,
{
    if n <= 0 {
        e
    } else if cells[n - 1] == RadarCell::Exit {
        Some(absolute_cell(pos, n - 1))
    } else {
        observed_exit(e, pos, cells, n - 1)
    }
}

/// Whether this turn runs the leader algorithm: a lone agent always
/// does, an elected leader does, and an agent that finds the seat
/// empty elects itself.
pub open spec fn runs_leader_algorithm(
    leader_id: Option<u32>,
    player_id: u32,
    connected_players: u32,
) -> bool {
    connected_players == 1 || leader_id is None || leader_id == Some(player_id)
}

/// The action one turn settles on, given the decoded snapshot, the
/// coordination state as it stood at the start of the turn, the
/// agent's visit counts and its current position.
pub open spec fn turn_action(
    view: RadarSpec,
    state: CoordinationState,
    counts: Map<(i32, i32), u64>,
    start: (i32, i32),
    player_id: u32,
    connected_players: u32,
) -> ActionData {
    let exit_after = observed_exit(state.exit_position, start, view.cells, 9);
    if runs_leader_algorithm(state.leader_id, player_id, connected_players) {
        leader_decision(
            view,
            state.grid_size,
            state.compass_decidegrees,
            counts,
            start,
            exit_after,
        )
    } else {
        follower_decision(view, state.leader_last_action)
    }
}

/// Runs one turn: decodes the radar snapshot, folds the nine observed
/// cells (and any exit among them) into the shared state, settles the
/// leader seat, chooses this agent's move, publishes it when the
/// agent holds the seat, and applies the speculative position update.
///
/// A snapshot that fails to decode returns nothing and changes
/// nothing: the turn is skipped and all prior state kept.
pub fn process_radar_turn(
    player_id: u32,
    encoded: &str,
    state: &mut CoordinationState,
    tracker: &mut ExplorationTracker,
    position_tracker: &mut HashMap<u32, (i32, i32)>,
    connected_players: u32,
) -> (r: Option<ActionData>)
    requires
        old(position_tracker)@.contains_key(player_id) ==> interior(
            old(position_tracker)@[player_id],
        ),
    ensures
        r is Some <==> decode_ok(encoded@),
        r is None ==> *final(state) == *old(state) && *final(tracker) == *old(tracker)
            && final(position_tracker)@ == old(position_tracker)@,
        decode_ok(encoded@) ==> ({
            let view = radar_model_of_str(encoded@);
            let start = if old(position_tracker)@.contains_key(player_id) {
                old(position_tracker)@[player_id]
            } else {
                (0i32, 0i32)
            };
            let action = turn_action(
                view,
                *old(state),
                old(tracker).counts(),
                start,
                player_id,
                connected_players,
            );
            let leader_after = if connected_players == 1 {
                None::<u32>
            } else if old(state).leader_id is None {
                Some(player_id)
            } else {
                old(state).leader_id
            };
            &&& r == Some(action)
            &&& action is MoveTo
            &&& final(state).labyrinth_map@ == observed_cells(
                old(state).labyrinth_map@,
                start,
                view.cells,
                9,
            )
            &&& final(state).exit_position == observed_exit(
                old(state).exit_position,
                start,
                view.cells,
                9,
            )
            &&& final(state).leader_id == leader_after
            &&& final(state).compass_decidegrees == old(state).compass_decidegrees
            &&& final(state).grid_size == old(state).grid_size
            &&& final(state).leader_last_action == if leader_after == Some(player_id) {
                Some(action)
            } else {
                old(state).leader_last_action
            }
            &&& (action matches ActionData::MoveTo(d) ==> {
                &&& final(position_tracker)@ == old(position_tracker)@.insert(
                    player_id,
                    step_pos(start, d),
                )
                &&& marked(*old(tracker), *final(tracker), step_pos(start, d), d)
            })
        }),
{
    let decoded = match decode_and_format(encoded) {
        Ok(view) => view,
        Err(_) => {
            return None;
        },
    };
    let start: (i32, i32) = match position_tracker.get(&player_id) {
        Some(pos) => *pos,
        None => {
            position_tracker.insert(player_id, (0, 0));
            (0, 0)
        },
    };
    let ghost entry_positions = position_tracker@;
    let ghost view = radar_model_of_str(encoded@);
    proof {
        assert(decoded@ =~= view);
        assert(interior(start));
        assert(can_step_all(start));
    }
    let mut i: usize = 0;
    while i < 9
        invariant
            i <= 9,
            decoded.wf(),
            view == decoded@,
            view == radar_model_of_str(encoded@),
            interior(start),
            state.labyrinth_map@ == observed_cells(
                old(state).labyrinth_map@,
                start,
                view.cells,
                i as int,
            ),
            state.exit_position == observed_exit(
                old(state).exit_position,
                start,
                view.cells,
                i as int,
            ),
            state.leader_id == old(state).leader_id,
            state.leader_last_action == old(state).leader_last_action,
            state.compass_decidegrees == old(state).compass_decidegrees,
            state.grid_size == old(state).grid_size,
        decreases 9 - i,
    {
        let cell = decoded.cells[i];
        let absolute = compute_absolute_position(start, i);
        state.record_cell(absolute, cell);
        if cell == RadarCell::Exit {
            state.record_exit(absolute);
        }
        i = i + 1;
    }
    let leads = state.resolve_role(player_id, connected_players);
    let action = if leads {
        leader_choose_action(
            player_id,
            &decoded,
            state.grid_size,
            state.compass_decidegrees,
            tracker,
            &*position_tracker,
            state.exit_position,
        )
    } else {
        follower_choose_action(player_id, &decoded, &state.leader_last_action)
    };
    let direction = match &action {
        ActionData::MoveTo(d) => *d,
        _ => unreached(),
    };
    let is_seated_leader = match state.leader_id {
        Some(id) => id == player_id,
        None => false,
    };
    if is_seated_leader {
        state.record_leader_action(ActionData::MoveTo(direction));
    }
    let mut position = start;
    update_player_position(player_id, &mut position, &action, tracker);
    position_tracker.insert(player_id, position);
    proof {
        assert(position_tracker@ =~= old(position_tracker)@.insert(
            player_id,
            step_pos(start, direction),
        ));
    }
    Some(action)
}

} // verus!
