//! The per-turn movement decision engine.
//!
//! Everything here is a pure function of the decoded radar snapshot,
//! the exploration memory, the shared hints and the agent's position.
//! The layered policy is: head for a known exit, else follow a
//! grid-shape or compass priority when it leads somewhere little
//! visited, else take the least-visited accessible direction, and as
//! a final resort apply a fixed "rule of thumb" that always yields a
//! move.

use vstd::prelude::*;
use std::collections::HashMap;
use crate::codec::{passage_open, DecodedView, RadarCell, RadarSpec};
use crate::direction::{can_step, can_step_all, dx, dy, RelativeDirection};
use crate::message::ActionData;
use crate::policy::{angle_priority, grid_priority};
use crate::tracker::{spec_count, ExplorationTracker};

verus! {

broadcast use vstd::std_specs::hash::group_hash_axioms;

/// True when the radar reports the neighbor cell in the given
/// direction as walkable: the cell itself is open and the wall
/// between agent and cell reads as an open passage. The cell index,
/// passage field and wall index are fixed per direction by the radar
/// layout.
pub open spec fn accessible(view: RadarSpec, direction: RelativeDirection) -> bool {
    match direction {
        RelativeDirection::Front => view.cells[1] == RadarCell::Open && passage_open(
            view.horizontal_passages[1],
            2,
        ),
        RelativeDirection::Right => view.cells[5] == RadarCell::Open && passage_open(
            view.vertical_passages[1],
            2,
        ),
        RelativeDirection::Left => view.cells[3] == RadarCell::Open && passage_open(
            view.vertical_passages[1],
            1,
        ),
        RelativeDirection::Back => view.cells[7] == RadarCell::Open && passage_open(
            view.horizontal_passages[2],
            2,
        ),
    }
}

/// The first direction of `directions`, from index `i` on, that the
/// radar reports accessible.
pub open spec fn first_accessible_from(
    view: RadarSpec,
    directions: Seq<RelativeDirection>,
    i: int,
) -> Option<RelativeDirection>
    decreases directions.len() - i,
{
    if i < 0 || i >= directions.len() {
        None
    } else if accessible(view, directions[i]) {
        Some(directions[i])
    } else {
        first_accessible_from(view, directions, i + 1)
    }
}

/// The first direction of `directions` that the radar reports
/// accessible.
pub open spec fn first_accessible(
    view: RadarSpec,
    directions: Seq<RelativeDirection>,
) -> Option<RelativeDirection> {
    first_accessible_from(view, directions, 0)
}

/// The priority walk is sound: a returned direction is accessible
/// and comes from the list, and an empty answer means every listed
/// direction is blocked.
pub proof fn lemma_first_accessible_props(
    view: RadarSpec,
    directions: Seq<RelativeDirection>,
    i: int,
)
    requires
        0 <= i <= directions.len(),
    ensures
        first_accessible_from(view, directions, i) matches Some(d) ==> accessible(view, d)
            && directions.contains(d),
        first_accessible_from(view, directions, i) is None ==> forall|j: int|
            i <= j < directions.len() ==> !accessible(view, #[trigger] directions[j]),
    decreases directions.len() - i,
{
    if i < directions.len() {
        lemma_first_accessible_props(view, directions, i + 1);
        if accessible(view, directions[i]) {
            assert(directions.contains(directions[i]));
        }
    }
}

/// A follower is never stranded by its substitute ordering: the
/// ordering lists all four directions, so it comes up empty only
/// when nothing at all is accessible.
pub proof fn lemma_follow_priority_total(view: RadarSpec, leader_direction: RelativeDirection)
    ensures
        first_accessible(view, follow_priority(leader_direction)) is None ==> forall|
            d: RelativeDirection,
        | !accessible(view, d),
{
    let priority = follow_priority(leader_direction);
    lemma_first_accessible_props(view, priority, 0);
    if first_accessible(view, priority) is None {
        assert forall|d: RelativeDirection| !accessible(view, d) by {
            assert(!accessible(view, priority[0]));
            assert(!accessible(view, priority[1]));
            assert(!accessible(view, priority[2]));
            assert(!accessible(view, priority[3]));
        }
    }
}

/// Tests a single direction against the radar.
fn direction_accessible(radar: &DecodedView, direction: RelativeDirection) -> (r: bool)
    requires
        radar.wf(),
    ensures
        r == accessible(radar@, direction),
{
    match direction {
        RelativeDirection::Front => {
            let cell = radar.cells[1];
            cell == RadarCell::Open && crate::codec::is_passage_open(
                radar.get_horizontal_passage(1),
                2,
            )
        },
        RelativeDirection::Right => {
            let cell = radar.cells[5];
            cell == RadarCell::Open && crate::codec::is_passage_open(
                radar.get_vertical_passage(1),
                2,
            )
        },
        RelativeDirection::Left => {
            let cell = radar.cells[3];
            cell == RadarCell::Open && crate::codec::is_passage_open(
                radar.get_vertical_passage(1),
                1,
            )
        },
        RelativeDirection::Back => {
            let cell = radar.cells[7];
            cell == RadarCell::Open && crate::codec::is_passage_open(
                radar.get_horizontal_passage(2),
                2,
            )
        },
    }
}

/// Walks a priority list and returns the first direction the radar
/// reports accessible, or nothing when every listed direction is
/// blocked.
pub fn choose_accessible_direction(
    radar: &DecodedView,
    directions: Vec<RelativeDirection>,
) -> (r: Option<RelativeDirection>)
    requires
        radar.wf(),
    ensures
        r == first_accessible(radar@, directions@),
{
    let n = directions.len();
    let mut i: usize = 0;
    while i < n
        invariant
            i <= n,
            n == directions@.len(),
            radar.wf(),
            first_accessible(radar@, directions@) == first_accessible_from(
                radar@,
                directions@,
                i as int,
            ),
        decreases n - i,
    {
        if direction_accessible(radar, directions[i]) {
            return Some(directions[i]);
        }
        i = i + 1;
    }
    None
}

/// The substitute ordering a follower tries when mirroring the
/// leader: the leader's direction itself first, then its lateral
/// neighbors, then the opposite.
pub open spec fn follow_priority(leader_direction: RelativeDirection) -> Seq<RelativeDirection> {
    match leader_direction {
        RelativeDirection::Front => seq![
            RelativeDirection::Front,
            RelativeDirection::Right,
            RelativeDirection::Left,
            RelativeDirection::Back,
        ],
        RelativeDirection::Right => seq![
            RelativeDirection::Right,
            RelativeDirection::Front,
            RelativeDirection::Back,
            RelativeDirection::Left,
        ],
        RelativeDirection::Left => seq![
            RelativeDirection::Left,
            RelativeDirection::Front,
            RelativeDirection::Back,
            RelativeDirection::Right,
        ],
        RelativeDirection::Back => seq![
            RelativeDirection::Back,
            RelativeDirection::Left,
            RelativeDirection::Right,
            RelativeDirection::Front,
        ],
    }
}

/// Picks the direction a follower should take to mirror the leader's
/// move, substituting the nearest accessible alternative, or nothing
/// when all four are blocked.
pub fn follow_leader_direction(
    radar: &DecodedView,
    leader_direction: RelativeDirection,
) -> (r: Option<RelativeDirection>)
    requires
        radar.wf(),
    ensures
        r == first_accessible(radar@, follow_priority(leader_direction)),
{
    let mut priority: Vec<RelativeDirection> = Vec::new();
    match leader_direction {
        RelativeDirection::Front => {
            priority.push(RelativeDirection::Front);
            priority.push(RelativeDirection::Right);
            priority.push(RelativeDirection::Left);
            priority.push(RelativeDirection::Back);
        },
        RelativeDirection::Right => {
            priority.push(RelativeDirection::Right);
            priority.push(RelativeDirection::Front);
            priority.push(RelativeDirection::Back);
            priority.push(RelativeDirection::Left);
        },
        RelativeDirection::Left => {
            priority.push(RelativeDirection::Left);
            priority.push(RelativeDirection::Front);
            priority.push(RelativeDirection::Back);
            priority.push(RelativeDirection::Right);
        },
        RelativeDirection::Back => {
            priority.push(RelativeDirection::Back);
            priority.push(RelativeDirection::Left);
            priority.push(RelativeDirection::Right);
            priority.push(RelativeDirection::Front);
        },
    }
    proof {
        assert(priority@ =~= follow_priority(leader_direction));
    }
    choose_accessible_direction(radar, priority)
}

/// The rule-of-thumb decision: right if accessible, else front, else
/// left, and back unconditionally when all three are blocked.
pub open spec fn decide_action_spec(view: RadarSpec) -> ActionData {
    if accessible(view, RelativeDirection::Right) {
        ActionData::MoveTo(RelativeDirection::Right)
    } else if accessible(view, RelativeDirection::Front) {
        ActionData::MoveTo(RelativeDirection::Front)
    } else if accessible(view, RelativeDirection::Left) {
        ActionData::MoveTo(RelativeDirection::Left)
    } else {
        ActionData::MoveTo(RelativeDirection::Back)
    }
}

/// The terminal fallback of the decision ladder. Always produces a
/// move, whatever the radar says.
pub fn decide_action(radar: &DecodedView) -> (r: ActionData)
    requires
        radar.wf(),
    ensures
        r == decide_action_spec(radar@),
        r is MoveTo,
{
    if direction_accessible(radar, RelativeDirection::Right) {
        ActionData::MoveTo(RelativeDirection::Right)
    } else if direction_accessible(radar, RelativeDirection::Front) {
        ActionData::MoveTo(RelativeDirection::Front)
    } else if direction_accessible(radar, RelativeDirection::Left) {
        ActionData::MoveTo(RelativeDirection::Left)
    } else {
        ActionData::MoveTo(RelativeDirection::Back)
    }
}

/// When right, front and left are all blocked, the rule of thumb
/// falls back to moving back — it never fails to answer.
pub proof fn lemma_reactive_fallback_total(view: RadarSpec)
    requires
        !accessible(view, RelativeDirection::Right),
        !accessible(view, RelativeDirection::Front),
        !accessible(view, RelativeDirection::Left),
    ensures
        decide_action_spec(view) == ActionData::MoveTo(RelativeDirection::Back),
{
}

/// The position one step away, as a concrete coordinate pair. Only
/// meaningful where `can_step` holds.
pub open spec fn step_pos(pos: (i32, i32), direction: RelativeDirection) -> (i32, i32) {
    ((pos.0 + dx(direction)) as i32, (pos.1 + dy(direction)) as i32)
}

/// Projects where a player would stand after one step in the given
/// direction, from the shared position table; nothing when the player
/// has no recorded position.
pub fn simulate_movement(
    player_id: u32,
    direction: RelativeDirection,
    position_tracker: &HashMap<u32, (i32, i32)>,
) -> (r: Option<(i32, i32)>)
    requires
        position_tracker@.contains_key(player_id) ==> can_step(
            position_tracker@[player_id],
            direction,
        ),
    ensures
        r == if position_tracker@.contains_key(player_id) {
            Some(step_pos(position_tracker@[player_id], direction))
        } else {
            None::<(i32, i32)>
        },
{
    let (x, y) = match position_tracker.get(&player_id) {
        Some(pos) => *pos,
        None => {
            return None;
        },
    };
    let new_position = match direction {
        RelativeDirection::Front => (x, y - 1),
        RelativeDirection::Right => (x + 1, y),
        RelativeDirection::Left => (x - 1, y),
        RelativeDirection::Back => (x, y + 1),
    };
    Some(new_position)
}

/// The enumeration order in which candidate directions are examined.
pub open spec fn direction_order() -> Seq<RelativeDirection> {
    seq![
        RelativeDirection::Front,
        RelativeDirection::Right,
        RelativeDirection::Left,
        RelativeDirection::Back,
    ]
}

/// Folds over the remaining candidate directions, keeping the
/// accessible one whose target position has the strictly lowest
/// visit count seen so far; on ties the earlier candidate stays.
pub open spec fn best_candidate_from(
    view: RadarSpec,
    counts: Map<(i32, i32), u64>,
    pos: (i32, i32),
    directions: Seq<RelativeDirection>,
    i: int,
    best: Option<RelativeDirection>,
) -> Option<RelativeDirection>
    decreases directions.len() - i,
{
    if i < 0 || i >= directions.len() {
        best
    } else {
        let d = directions[i];
        let next = if !accessible(view, d) {
            best
        } else {
            match best {
                None => Some(d),
                Some(b) => if spec_count(counts, step_pos(pos, d)) < spec_count(
                    counts,
                    step_pos(pos, b),
                ) {
                    Some(d)
                } else {
                    best
                },
            }
        };
        best_candidate_from(view, counts, pos, directions, i + 1, next)
    }
}

/// The accessible direction whose target has been visited least,
/// ties broken by enumeration order; nothing when every direction is
/// blocked.
pub open spec fn least_visited_direction(
    view: RadarSpec,
    counts: Map<(i32, i32), u64>,
    pos: (i32, i32),
) -> Option<RelativeDirection> {
    best_candidate_from(view, counts, pos, direction_order(), 0, None)
}

/// The least-visited decision: move toward the least-visited
/// accessible neighbor, falling back to the rule of thumb when no
/// direction is accessible.
pub open spec fn least_visited_decision(
    view: RadarSpec,
    counts: Map<(i32, i32), u64>,
    pos: (i32, i32),
) -> ActionData {
    match least_visited_direction(view, counts, pos) {
        Some(d) => ActionData::MoveTo(d),
        None => decide_action_spec(view),
    }
}

/// Picks the accessible direction leading to the position the player
/// has visited least, ties broken in the order front, right, left,
/// back; when no direction is accessible the rule-of-thumb fallback
/// decides.
pub fn choose_least_visited_direction(
    player_id: u32,
    radar_data: &DecodedView,
    tracker: &ExplorationTracker,
    position_tracker: &HashMap<u32, (i32, i32)>,
) -> (r: ActionData)
    requires
        radar_data.wf(),
        position_tracker@.contains_key(player_id),
        can_step_all(position_tracker@[player_id]),
    ensures
        r == least_visited_decision(
            radar_data@,
            tracker.counts(),
            position_tracker@[player_id],
        ),
        r is MoveTo,
{
    let ghost pos = position_tracker@[player_id];
    let ghost counts = tracker.counts();
    let mut order: Vec<RelativeDirection> = Vec::new();
    order.push(RelativeDirection::Front);
    order.push(RelativeDirection::Right);
    order.push(RelativeDirection::Left);
    order.push(RelativeDirection::Back);
    proof {
        assert(order@ =~= direction_order());
    }
    let mut best: Option<RelativeDirection> = None;
    let mut lowest: u64 = 0;
    let mut i: usize = 0;
    while i < 4
        invariant
            i <= 4,
            order@ == direction_order(),
            radar_data.wf(),
            position_tracker@.contains_key(player_id),
            can_step_all(pos),
            pos == position_tracker@[player_id],
            counts == tracker.counts(),
            best matches Some(b) ==> lowest == spec_count(counts, step_pos(pos, b)),
            least_visited_direction(radar_data@, counts, pos) == best_candidate_from(
                radar_data@,
                counts,
                pos,
                direction_order(),
                i as int,
                best,
            ),
        decreases 4 - i,
    {
        let direction = order[i];
        if direction_accessible(radar_data, direction) {
            if let Some(new_position) = simulate_movement(player_id, direction, position_tracker) {
                let visit_count = tracker.visit_count(new_position);
                if best.is_none() || visit_count < lowest {
                    lowest = visit_count;
                    best = Some(direction);
                }
            }
        }
        i = i + 1;
    }
    if let Some(direction) = best {
        return ActionData::MoveTo(direction);
    }
    decide_action(radar_data)
}

/// The fold keeps only justified candidates: starting from a best
/// candidate that is accessible (or from none), the result is
/// accessible, no more visited than the starting candidate, and no
/// more visited than any accessible direction it passed over.
proof fn lemma_best_candidate_props(
    view: RadarSpec,
    counts: Map<(i32, i32), u64>,
    pos: (i32, i32),
    directions: Seq<RelativeDirection>,
    i: int,
    best: Option<RelativeDirection>,
)
    requires
        0 <= i <= directions.len(),
        best matches Some(b) ==> accessible(view, b),
    ensures
        ({
            let r = best_candidate_from(view, counts, pos, directions, i, best);
            &&& (r is None ==> best is None && (forall|j: int|
                i <= j < directions.len() ==> !accessible(view, #[trigger] directions[j])))
            &&& (r matches Some(d) ==> accessible(view, d))
            &&& (match (r, best) {
                (Some(d), Some(b)) => spec_count(counts, step_pos(pos, d)) <= spec_count(
                    counts,
                    step_pos(pos, b),
                ),
                _ => true,
            })
            &&& (r matches Some(d) ==> forall|j: int|
                i <= j < directions.len() && accessible(view, #[trigger] directions[j])
                    ==> spec_count(counts, step_pos(pos, d)) <= spec_count(
                    counts,
                    step_pos(pos, directions[j]),
                ))
        }),
    decreases directions.len() - i,
{
    if i < directions.len() {
        let d = directions[i];
        let next = if !accessible(view, d) {
            best
        } else {
            match best {
                None => Some(d),
                Some(b) => if spec_count(counts, step_pos(pos, d)) < spec_count(
                    counts,
                    step_pos(pos, b),
                ) {
                    Some(d)
                } else {
                    best
                },
            }
        };
        lemma_best_candidate_props(view, counts, pos, directions, i + 1, next);
    }
}

/// The least-visited rule picks an accessible direction whose target
/// has no more recorded visits than any other accessible direction's
/// target, and comes up empty exactly when nothing is accessible.
pub proof fn lemma_least_visited_minimal(
    view: RadarSpec,
    counts: Map<(i32, i32), u64>,
    pos: (i32, i32),
)
    ensures
        least_visited_direction(view, counts, pos) is None ==> forall|d: RelativeDirection|
            !accessible(view, d),
        least_visited_direction(view, counts, pos) matches Some(d) ==> accessible(view, d) && (
        forall|e: RelativeDirection|
            accessible(view, e) ==> spec_count(counts, step_pos(pos, d)) <= spec_count(
                counts,
                step_pos(pos, e),
            )),
{
    lemma_best_candidate_props(view, counts, pos, direction_order(), 0, None);
    let r = least_visited_direction(view, counts, pos);
    assert(direction_order()[0] == RelativeDirection::Front);
    assert(direction_order()[1] == RelativeDirection::Right);
    assert(direction_order()[2] == RelativeDirection::Left);
    assert(direction_order()[3] == RelativeDirection::Back);
    if r is None {
        assert forall|d: RelativeDirection| !accessible(view, d) by {
            match d {
                RelativeDirection::Front => assert(!accessible(view, direction_order()[0])),
                RelativeDirection::Right => assert(!accessible(view, direction_order()[1])),
                RelativeDirection::Left => assert(!accessible(view, direction_order()[2])),
                RelativeDirection::Back => assert(!accessible(view, direction_order()[3])),
            }
        }
    } else {
        let d = r->0;
        assert forall|e: RelativeDirection| accessible(view, e) implies spec_count(
            counts,
            step_pos(pos, d),
        ) <= spec_count(counts, step_pos(pos, e)) by {
            match e {
                RelativeDirection::Front => assert(accessible(view, direction_order()[0])),
                RelativeDirection::Right => assert(accessible(view, direction_order()[1])),
                RelativeDirection::Left => assert(accessible(view, direction_order()[2])),
                RelativeDirection::Back => assert(accessible(view, direction_order()[3])),
            }
        }
    }
}

/// The greedy direction toward the exit: move along whichever axis
/// has the larger absolute distance left, ties broken toward the
/// vertical axis.
pub open spec fn exit_direction(pos: (i32, i32), exit: (i32, i32)) -> RelativeDirection {
    let dx = exit.0 - pos.0;
    let dy = exit.1 - pos.1;
    let adx = if dx < 0 {
        -dx
    } else {
        dx
    };
    let ady = if dy < 0 {
        -dy
    } else {
        dy
    };
    if adx > ady {
        if dx > 0 {
            RelativeDirection::Right
        } else {
            RelativeDirection::Left
        }
    } else {
        if dy > 0 {
            RelativeDirection::Back
        } else {
            RelativeDirection::Front
        }
    }
}

/// Heads toward a known exit along the dominant axis; nothing when
/// the player has no recorded position.
pub fn find_path_to_exit(
    player_id: u32,
    position_tracker: &HashMap<u32, (i32, i32)>,
    exit_position: (i32, i32),
) -> (r: Option<RelativeDirection>)
    ensures
        r == if position_tracker@.contains_key(player_id) {
            Some(exit_direction(position_tracker@[player_id], exit_position))
        } else {
            None::<RelativeDirection>
        },
{
    let current_position = match position_tracker.get(&player_id) {
        Some(pos) => *pos,
        None => {
            return None;
        },
    };
    let dx: i64 = exit_position.0 as i64 - current_position.0 as i64;
    let dy: i64 = exit_position.1 as i64 - current_position.1 as i64;
    let adx: i64 = if dx < 0 {
        -dx
    } else {
        dx
    };
    let ady: i64 = if dy < 0 {
        -dy
    } else {
        dy
    };
    if adx > ady {
        if dx > 0 {
            Some(RelativeDirection::Right)
        } else {
            Some(RelativeDirection::Left)
        }
    } else {
        if dy > 0 {
            Some(RelativeDirection::Back)
        } else {
            Some(RelativeDirection::Front)
        }
    }
}

/// True when both coordinates sit strictly inside the `i32` range,
/// so every neighbor cell of the 3x3 radar grid can be addressed.
pub open spec fn interior(pos: (i32, i32)) -> bool {
    &&& i32::MIN < pos.0 < i32::MAX
    &&& i32::MIN < pos.1 < i32::MAX
}

/// The absolute position the `i`-th radar cell projects to: the 3x3
/// grid is row-major with index 4 on the agent itself, and any index
/// outside the grid defensively maps back to the agent's position.
pub open spec fn absolute_position(pos: (i32, i32), cell_index: int) -> (int, int) {
    if 0 <= cell_index < 9 {
        (pos.0 + cell_index % 3 - 1, pos.1 + cell_index / 3 - 1)
    } else {
        (pos.0 as int, pos.1 as int)
    }
}

/// The absolute position of the `i`-th radar cell, as a concrete
/// coordinate pair. Only meaningful where the agent's position is
/// interior.
pub open spec fn absolute_cell(pos: (i32, i32), cell_index: int) -> (i32, i32) {
    (absolute_position(pos, cell_index).0 as i32, absolute_position(pos, cell_index).1 as i32)
}

/// Projects a radar cell index onto absolute maze coordinates.
pub fn compute_absolute_position(current_pos: (i32, i32), cell_index: usize) -> (r: (i32, i32))
    requires
        interior(current_pos),
    ensures
        (r.0 as int, r.1 as int) == absolute_position(current_pos, cell_index as int),
        r == absolute_cell(current_pos, cell_index as int),
{
    match cell_index {
        0 => (current_pos.0 - 1, current_pos.1 - 1),
        1 => (current_pos.0, current_pos.1 - 1),
        2 => (current_pos.0 + 1, current_pos.1 - 1),
        3 => (current_pos.0 - 1, current_pos.1),
        4 => (current_pos.0, current_pos.1),
        5 => (current_pos.0 + 1, current_pos.1),
        6 => (current_pos.0 - 1, current_pos.1 + 1),
        7 => (current_pos.0, current_pos.1 + 1),
        8 => (current_pos.0 + 1, current_pos.1 + 1),
        _ => current_pos,
    }
}

/// The directions that lead away from walls the position touches:
/// right when on the left border, left when on the right border,
/// back when on the top border, front when on the bottom border.
pub open spec fn border_directions(pos: (i32, i32), grid_size: (u32, u32)) -> Seq<
    RelativeDirection,
> {
    let s0 = Seq::<RelativeDirection>::empty();
    let s1 = if pos.0 == 0 {
        s0.push(RelativeDirection::Right)
    } else {
        s0
    };
    let s2 = if pos.0 == grid_size.0 - 1 {
        s1.push(RelativeDirection::Left)
    } else {
        s1
    };
    let s3 = if pos.1 == 0 {
        s2.push(RelativeDirection::Back)
    } else {
        s2
    };
    if pos.1 == grid_size.1 - 1 {
        s3.push(RelativeDirection::Front)
    } else {
        s3
    }
}

/// Reports which maze borders the position touches, as the directions
/// leading away from them.
pub fn detect_near_border(position: (i32, i32), grid_size: (u32, u32)) -> (r: Vec<
    RelativeDirection,
>)
    ensures
        r@ == border_directions(position, grid_size),
{
    let mut directions: Vec<RelativeDirection> = Vec::new();
    let (cols, rows) = grid_size;
    let (x, y) = position;
    if x == 0 {
        directions.push(RelativeDirection::Right);
    }
    if x as i64 == cols as i64 - 1 {
        directions.push(RelativeDirection::Left);
    }
    if y == 0 {
        directions.push(RelativeDirection::Back);
    }
    if y as i64 == rows as i64 - 1 {
        directions.push(RelativeDirection::Front);
    }
    proof {
        assert(directions@ =~= border_directions(position, grid_size));
    }
    directions
}

/// What a hint-driven step proposes: the first accessible direction
/// of the priority list, accepted only when its target has been
/// visited fewer than three times.
pub open spec fn hint_choice(
    view: RadarSpec,
    counts: Map<(i32, i32), u64>,
    pos: (i32, i32),
    priority: Seq<RelativeDirection>,
) -> Option<RelativeDirection> {
    match first_accessible(view, priority) {
        Some(d) => if spec_count(counts, step_pos(pos, d)) < 3 {
            Some(d)
        } else {
            None
        },
        None => None,
    }
}

/// The leader's layered decision. A known exit wins outright; then a
/// grid-shape hint and a compass hint each get a chance, filtered by
/// accessibility and by the visit-count threshold; what remains falls
/// to the least-visited rule and, through it, to the rule of thumb.
pub open spec fn leader_decision(
    view: RadarSpec,
    grid_size: Option<(u32, u32)>,
    compass_decidegrees: Option<i64>,
    counts: Map<(i32, i32), u64>,
    pos: (i32, i32),
    exit_position: Option<(i32, i32)>,
) -> ActionData {
    match exit_position {
        Some(exit) => ActionData::MoveTo(exit_direction(pos, exit)),
        None => {
            let by_grid = match grid_size {
                Some(g) => hint_choice(view, counts, pos, grid_priority(Some(g))),
                None => None,
            };
            match by_grid {
                Some(d) => ActionData::MoveTo(d),
                None => {
                    let by_compass = match compass_decidegrees {
                        Some(a) => hint_choice(view, counts, pos, angle_priority(a as int)),
                        None => None,
                    };
                    match by_compass {
                        Some(d) => ActionData::MoveTo(d),
                        None => least_visited_decision(view, counts, pos),
                    }
                },
            }
        },
    }
}

/// Runs one hint-driven step of the leader ladder.
fn try_hint_priority(
    player_id: u32,
    radar_data: &DecodedView,
    priority: Vec<RelativeDirection>,
    tracker: &ExplorationTracker,
    position_tracker: &HashMap<u32, (i32, i32)>,
) -> (r: Option<RelativeDirection>)
    requires
        radar_data.wf(),
        position_tracker@.contains_key(player_id),
        can_step_all(position_tracker@[player_id]),
    ensures
        r == hint_choice(
            radar_data@,
            tracker.counts(),
            position_tracker@[player_id],
            priority@,
        ),
{
    if let Some(direction) = choose_accessible_direction(radar_data, priority) {
        if let Some(new_position) = simulate_movement(player_id, direction, position_tracker) {
            let visit_count = tracker.visit_count(new_position);
            if visit_count < 3 {
                return Some(direction);
            }
        }
    }
    None
}

/// Chooses the leader's move for this turn.
///
/// Loop detection is advisory only here: a looping position changes
/// nothing about the choice, because the least-visited rule at the
/// bottom of the ladder already steers away from worn paths.
pub fn leader_choose_action(
    player_id: u32,
    radar_data: &DecodedView,
    grid_size: Option<(u32, u32)>,
    compass_decidegrees: Option<i64>,
    tracker: &ExplorationTracker,
    position_tracker: &HashMap<u32, (i32, i32)>,
    exit_position: Option<(i32, i32)>,
) -> (r: ActionData)
    requires
        radar_data.wf(),
        position_tracker@.contains_key(player_id),
        can_step_all(position_tracker@[player_id]),
    ensures
        r == leader_decision(
            radar_data@,
            grid_size,
            compass_decidegrees,
            tracker.counts(),
            position_tracker@[player_id],
            exit_position,
        ),
        r is MoveTo,
{
    if let Some(exit_pos) = exit_position {
        if let Some(direction) = find_path_to_exit(player_id, position_tracker, exit_pos) {
            return ActionData::MoveTo(direction);
        }
    }
    if grid_size.is_some() {
        let priority = crate::policy::direction_from_grid_size(grid_size);
        if let Some(direction) = try_hint_priority(
            player_id,
            radar_data,
            priority,
            tracker,
            position_tracker,
        ) {
            return ActionData::MoveTo(direction);
        }
    }
    if let Some(angle) = compass_decidegrees {
        let priority = crate::policy::direction_from_angle(angle);
        if let Some(direction) = try_hint_priority(
            player_id,
            radar_data,
            priority,
            tracker,
            position_tracker,
        ) {
            return ActionData::MoveTo(direction);
        }
    }
    choose_least_visited_direction(player_id, radar_data, tracker, position_tracker)
}

/// The follower's decision: mirror the leader's last move through the
/// substitute ordering, and fall back to the rule of thumb when the
/// leader's action is unknown, is not a move, or is entirely blocked.
pub open spec fn follower_decision(view: RadarSpec, leader_action: Option<ActionData>) -> ActionData {
    match leader_action {
        Some(ActionData::MoveTo(d)) => match first_accessible(view, follow_priority(d)) {
            Some(adapted) => ActionData::MoveTo(adapted),
            None => decide_action_spec(view),
        },
        _ => decide_action_spec(view),
    }
}

/// Chooses a follower's move from the leader's last reported action.
pub fn follower_choose_action(
    _player_id: u32,
    radar_data: &DecodedView,
    leader_action: &Option<ActionData>,
) -> (r: ActionData)
    requires
        radar_data.wf(),
    ensures
        r == follower_decision(radar_data@, *leader_action),
        r is MoveTo,
{
    if let Some(action) = leader_action {
        if let ActionData::MoveTo(direction) = action {
            if let Some(adapted) = follow_leader_direction(radar_data, *direction) {
                return ActionData::MoveTo(adapted);
            }
        }
    }
    decide_action(radar_data)
}

/// Applies a chosen move to the player's position speculatively and
/// records the new position in the exploration memory; an action
/// that is not a move leaves both untouched.
pub fn update_player_position(
    _player_id: u32,
    player_position: &mut (i32, i32),
    action: &ActionData,
    tracker: &mut ExplorationTracker,
)
    requires
        action matches ActionData::MoveTo(d) ==> can_step(*old(player_position), *d),
    ensures
        action matches ActionData::MoveTo(d) ==> {
            &&& *final(player_position) == step_pos(*old(player_position), *d)
            &&& final(tracker).counts() == old(tracker).counts().insert(
                *final(player_position),
                crate::tracker::saturating_increment(
                    spec_count(old(tracker).counts(), *final(player_position)),
                ),
            )
            &&& final(tracker).history() == crate::tracker::pushed_history(
                old(tracker).history(),
                *final(player_position),
            )
            &&& final(tracker).spec_last_direction() == Some(*d)
        },
        !(action is MoveTo) ==> *final(player_position) == *old(player_position) && *final(tracker)
            == *old(tracker),
{
    if let ActionData::MoveTo(direction) = action {
        match direction {
            RelativeDirection::Front => {
                player_position.1 = player_position.1 - 1;
            },
            RelativeDirection::Right => {
                player_position.0 = player_position.0 + 1;
            },
            RelativeDirection::Left => {
                player_position.0 = player_position.0 - 1;
            },
            RelativeDirection::Back => {
                player_position.1 = player_position.1 + 1;
            },
        }
        tracker.mark_position(*player_position, *direction);
    }
}

/// Undoes the speculative position update of a rejected move, as
/// when the server reports a wall collision: one step opposite to
/// the direction that was optimistically applied.
pub fn rollback_position(player_position: &mut (i32, i32), direction: RelativeDirection)
    requires
        i32::MIN <= old(player_position).0 - dx(direction) <= i32::MAX,
        i32::MIN <= old(player_position).1 - dy(direction) <= i32::MAX,
    ensures
        final(player_position).0 == old(player_position).0 - dx(direction),
        final(player_position).1 == old(player_position).1 - dy(direction),
{
    match direction {
        RelativeDirection::Front => {
            player_position.1 = player_position.1 + 1;
        },
        RelativeDirection::Right => {
            player_position.0 = player_position.0 - 1;
        },
        RelativeDirection::Left => {
            player_position.0 = player_position.0 + 1;
        },
        RelativeDirection::Back => {
            player_position.1 = player_position.1 - 1;
        },
    }
}

} // verus!
