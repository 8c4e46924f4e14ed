use std::collections::HashMap;
use maze_agent::codec::{decode_and_format, DecodedView, RadarCell};
use maze_agent::navigation::{
    choose_accessible_direction, choose_least_visited_direction, compute_absolute_position,
    decide_action, detect_near_border, find_path_to_exit, follow_leader_direction,
    follower_choose_action, leader_choose_action, rollback_position, simulate_movement,
    update_player_position,
};
use maze_agent::tracker::ExplorationTracker;
use maze_agent::ActionData;
use maze_agent::RelativeDirection;

/// A hand-built radar where exactly the given directions are
/// accessible: the neighbor cell is open and the wall between reads
/// as an open passage.
fn radar_with_open(front: bool, right: bool, left: bool, back: bool) -> DecodedView {
    let mut cells = vec![RadarCell::Undefined; 9];
    let mut horizontal = [0u32; 4];
    let mut vertical = [0u32; 3];
    if front {
        cells[1] = RadarCell::Open;
        horizontal[1] |= 0b000100;
    }
    if right {
        cells[5] = RadarCell::Open;
        vertical[1] |= 0b00000100;
    }
    if left {
        cells[3] = RadarCell::Open;
        vertical[1] |= 0b00010000;
    }
    if back {
        cells[7] = RadarCell::Open;
        horizontal[2] |= 0b000100;
    }
    DecodedView { horizontal_passages: horizontal, vertical_passages: vertical, cells }
}

#[test]
fn test_simulate_movement() {
    let mut position_tracker = HashMap::new();
    position_tracker.insert(1, (5, 5));

    assert_eq!(simulate_movement(1, RelativeDirection::Front, &position_tracker), Some((5, 4)));
    assert_eq!(simulate_movement(1, RelativeDirection::Back, &position_tracker), Some((5, 6)));
    assert_eq!(simulate_movement(1, RelativeDirection::Right, &position_tracker), Some((6, 5)));
    assert_eq!(simulate_movement(1, RelativeDirection::Left, &position_tracker), Some((4, 5)));

    // A player with no recorded position has nowhere to move from.
    assert_eq!(simulate_movement(2, RelativeDirection::Front, &position_tracker), None);
}

#[test]
fn test_detect_near_border() {
    let grid_size = (10, 10);

    assert_eq!(detect_near_border((0, 5), grid_size), vec![RelativeDirection::Right]);
    assert_eq!(detect_near_border((9, 5), grid_size), vec![RelativeDirection::Left]);
    assert_eq!(detect_near_border((5, 0), grid_size), vec![RelativeDirection::Back]);
    assert_eq!(detect_near_border((5, 9), grid_size), vec![RelativeDirection::Front]);

    assert_eq!(
        detect_near_border((0, 0), grid_size),
        vec![RelativeDirection::Right, RelativeDirection::Back]
    );
    assert_eq!(
        detect_near_border((9, 0), grid_size),
        vec![RelativeDirection::Left, RelativeDirection::Back]
    );
    assert_eq!(
        detect_near_border((0, 9), grid_size),
        vec![RelativeDirection::Right, RelativeDirection::Front]
    );
    assert_eq!(
        detect_near_border((9, 9), grid_size),
        vec![RelativeDirection::Left, RelativeDirection::Front]
    );

    assert_eq!(detect_near_border((5, 5), grid_size), vec![]);
}

#[test]
fn test_compute_absolute_position() {
    let base_pos = (5, 5);

    assert_eq!(compute_absolute_position(base_pos, 0), (4, 4));
    assert_eq!(compute_absolute_position(base_pos, 1), (5, 4));
    assert_eq!(compute_absolute_position(base_pos, 2), (6, 4));
    assert_eq!(compute_absolute_position(base_pos, 3), (4, 5));
    assert_eq!(compute_absolute_position(base_pos, 4), (5, 5));
    assert_eq!(compute_absolute_position(base_pos, 5), (6, 5));
    assert_eq!(compute_absolute_position(base_pos, 6), (4, 6));
    assert_eq!(compute_absolute_position(base_pos, 7), (5, 6));
    assert_eq!(compute_absolute_position(base_pos, 8), (6, 6));

    // Out-of-range indices defensively map back to the position.
    assert_eq!(compute_absolute_position(base_pos, 9), base_pos);
    assert_eq!(compute_absolute_position(base_pos, 100), base_pos);
}

#[test]
fn test_find_path_to_exit() {
    let mut position_tracker = HashMap::new();
    position_tracker.insert(1, (5, 5));

    assert_eq!(find_path_to_exit(1, &position_tracker, (7, 5)), Some(RelativeDirection::Right));
    assert_eq!(find_path_to_exit(1, &position_tracker, (3, 5)), Some(RelativeDirection::Left));
    assert_eq!(find_path_to_exit(1, &position_tracker, (5, 7)), Some(RelativeDirection::Back));
    assert_eq!(find_path_to_exit(1, &position_tracker, (5, 3)), Some(RelativeDirection::Front));

    // Standing on the exit, the vertical tie-break yields front.
    assert_eq!(find_path_to_exit(1, &position_tracker, (5, 5)), Some(RelativeDirection::Front));

    assert_eq!(find_path_to_exit(2, &position_tracker, (10, 10)), None);
}

#[test]
fn test_update_player_position() {
    let mut player_position = (5, 5);
    let mut tracker = ExplorationTracker::new();

    update_player_position(
        1,
        &mut player_position,
        &ActionData::MoveTo(RelativeDirection::Front),
        &mut tracker,
    );
    assert_eq!(player_position, (5, 4));
    assert_eq!(tracker.get_visit_count((5, 4)), Some(1));

    update_player_position(
        1,
        &mut player_position,
        &ActionData::MoveTo(RelativeDirection::Back),
        &mut tracker,
    );
    assert_eq!(player_position, (5, 5));
    assert_eq!(tracker.get_visit_count((5, 5)), Some(1));

    update_player_position(
        1,
        &mut player_position,
        &ActionData::MoveTo(RelativeDirection::Right),
        &mut tracker,
    );
    assert_eq!(player_position, (6, 5));
    assert_eq!(tracker.get_visit_count((6, 5)), Some(1));

    update_player_position(
        1,
        &mut player_position,
        &ActionData::MoveTo(RelativeDirection::Left),
        &mut tracker,
    );
    assert_eq!(player_position, (5, 5));
    assert_eq!(tracker.get_visit_count((5, 5)), Some(2));

    assert!(tracker.get_visit_count((5, 4)).is_some());
    assert!(tracker.get_visit_count((6, 5)).is_some());
}

#[test]
fn test_decide_action_with_real_radar() {
    let input = "ieysGjGO8papd/a";
    let radar = decode_and_format(input).expect("radar decoding failed");

    let action = decide_action(&radar);
    assert_eq!(action, ActionData::MoveTo(RelativeDirection::Front));
}

#[test]
fn test_follow_leader_direction() {
    let input = "ieysGjGO8papd/a";
    let radar = decode_and_format(input).expect("radar decoding failed");

    if let Some(direction) = follow_leader_direction(&radar, RelativeDirection::Front) {
        assert!(matches!(
            direction,
            RelativeDirection::Front
                | RelativeDirection::Right
                | RelativeDirection::Left
                | RelativeDirection::Back
        ));
    }

    if let Some(direction) = follow_leader_direction(&radar, RelativeDirection::Right) {
        assert!(matches!(
            direction,
            RelativeDirection::Right
                | RelativeDirection::Front
                | RelativeDirection::Back
                | RelativeDirection::Left
        ));
    }

    if let Some(direction) = follow_leader_direction(&radar, RelativeDirection::Left) {
        assert!(matches!(
            direction,
            RelativeDirection::Left
                | RelativeDirection::Front
                | RelativeDirection::Back
                | RelativeDirection::Right
        ));
    }

    if let Some(direction) = follow_leader_direction(&radar, RelativeDirection::Back) {
        assert!(matches!(
            direction,
            RelativeDirection::Back
                | RelativeDirection::Left
                | RelativeDirection::Right
                | RelativeDirection::Front
        ));
    }
}

#[test]
fn test_choose_accessible_direction() {
    let input = "ieysGjGO8papd/a";
    let radar = decode_and_format(input).expect("radar decoding failed");

    let direction = choose_accessible_direction(
        &radar,
        vec![
            RelativeDirection::Front,
            RelativeDirection::Right,
            RelativeDirection::Left,
            RelativeDirection::Back,
        ],
    );
    if let Some(dir) = direction {
        assert!(matches!(
            dir,
            RelativeDirection::Front
                | RelativeDirection::Right
                | RelativeDirection::Left
                | RelativeDirection::Back
        ));
    } else {
        assert_eq!(direction, None);
    }

    let direction = choose_accessible_direction(
        &radar,
        vec![
            RelativeDirection::Right,
            RelativeDirection::Front,
            RelativeDirection::Back,
            RelativeDirection::Left,
        ],
    );
    if let Some(dir) = direction {
        assert!(matches!(
            dir,
            RelativeDirection::Right
                | RelativeDirection::Front
                | RelativeDirection::Back
                | RelativeDirection::Left
        ));
    } else {
        assert_eq!(direction, None);
    }

    // In this radar the back cell is blocked.
    let direction = choose_accessible_direction(&radar, vec![RelativeDirection::Back]);
    assert_eq!(direction, None);
}

#[test]
fn test_accessible_direction_only_back() {
    // Only the back cell is open and passable.
    let radar = radar_with_open(false, false, false, true);
    let direction = choose_accessible_direction(
        &radar,
        vec![
            RelativeDirection::Front,
            RelativeDirection::Right,
            RelativeDirection::Left,
            RelativeDirection::Back,
        ],
    );
    assert_eq!(direction, Some(RelativeDirection::Back));

    // With nothing open there is nothing to choose.
    let closed = radar_with_open(false, false, false, false);
    let direction = choose_accessible_direction(
        &closed,
        vec![
            RelativeDirection::Front,
            RelativeDirection::Right,
            RelativeDirection::Left,
            RelativeDirection::Back,
        ],
    );
    assert_eq!(direction, None);
}

#[test]
fn test_follower_choose_action() {
    let input = "ieysGjGO8papd/a";
    let radar_data = decode_and_format(input).expect("radar decoding failed");

    let player_id = 2;

    let leader_action = Some(ActionData::MoveTo(RelativeDirection::Right));
    let action = follower_choose_action(player_id, &radar_data, &leader_action);
    assert!(matches!(action, ActionData::MoveTo(_)));

    let leader_action = Some(ActionData::MoveTo(RelativeDirection::Front));
    let action = follower_choose_action(player_id, &radar_data, &leader_action);
    assert!(matches!(action, ActionData::MoveTo(_)));

    let action = follower_choose_action(player_id, &radar_data, &None);
    assert!(matches!(action, ActionData::MoveTo(_)));
}

#[test]
fn test_choose_least_visited_direction() {
    let input = "ieysGjGO8papd/a";
    let radar_data = decode_and_format(input).expect("radar decoding failed");

    let player_id = 1;

    let mut position_tracker = HashMap::new();
    position_tracker.insert(player_id, (5, 5));

    let mut tracker = ExplorationTracker::new();
    tracker.set_visit_count((5, 4), 3);
    tracker.set_visit_count((6, 5), 5);
    tracker.set_visit_count((4, 5), 2);
    tracker.set_visit_count((5, 6), 1);

    // In this radar only front and left are accessible, so the
    // least-visited accessible target wins: left with two visits.
    let action =
        choose_least_visited_direction(player_id, &radar_data, &tracker, &position_tracker);
    assert_eq!(action, ActionData::MoveTo(RelativeDirection::Left));

    tracker.set_visit_count((5, 4), 3);
    tracker.set_visit_count((6, 5), 3);
    tracker.set_visit_count((4, 5), 3);
    tracker.set_visit_count((5, 6), 3);

    let action =
        choose_least_visited_direction(player_id, &radar_data, &tracker, &position_tracker);
    assert!(matches!(action, ActionData::MoveTo(_)));

    tracker.set_visit_count((5, 4), 9999);
    tracker.set_visit_count((6, 5), 9999);
    tracker.set_visit_count((4, 5), 9999);
    tracker.set_visit_count((5, 6), 9999);

    let action =
        choose_least_visited_direction(player_id, &radar_data, &tracker, &position_tracker);
    assert!(matches!(action, ActionData::MoveTo(_)));
}

#[test]
fn test_least_visited_tie_break() {
    // All four directions accessible, counts front 3, right 5,
    // left 2, back 1: the least visited wins.
    let radar = radar_with_open(true, true, true, true);
    let player_id = 1;

    let mut position_tracker = HashMap::new();
    position_tracker.insert(player_id, (5, 5));

    let mut tracker = ExplorationTracker::new();
    tracker.set_visit_count((5, 4), 3);
    tracker.set_visit_count((6, 5), 5);
    tracker.set_visit_count((4, 5), 2);
    tracker.set_visit_count((5, 6), 1);

    let action = choose_least_visited_direction(player_id, &radar, &tracker, &position_tracker);
    assert_eq!(action, ActionData::MoveTo(RelativeDirection::Back));

    // On a full tie, enumeration order decides: front first.
    let mut tied = ExplorationTracker::new();
    tied.set_visit_count((5, 4), 2);
    tied.set_visit_count((6, 5), 2);
    tied.set_visit_count((4, 5), 2);
    tied.set_visit_count((5, 6), 2);
    let action = choose_least_visited_direction(player_id, &radar, &tied, &position_tracker);
    assert_eq!(action, ActionData::MoveTo(RelativeDirection::Front));
}

#[test]
fn test_reactive_fallback_returns_back() {
    // Right, front and left all blocked: the rule of thumb
    // unconditionally moves back.
    let radar = radar_with_open(false, false, false, false);
    assert_eq!(decide_action(&radar), ActionData::MoveTo(RelativeDirection::Back));

    // Even a radar with only the back open decides back.
    let radar = radar_with_open(false, false, false, true);
    assert_eq!(decide_action(&radar), ActionData::MoveTo(RelativeDirection::Back));

    // And the priority is right over front over left.
    let radar = radar_with_open(true, true, true, true);
    assert_eq!(decide_action(&radar), ActionData::MoveTo(RelativeDirection::Right));
    let radar = radar_with_open(true, false, true, true);
    assert_eq!(decide_action(&radar), ActionData::MoveTo(RelativeDirection::Front));
    let radar = radar_with_open(false, false, true, true);
    assert_eq!(decide_action(&radar), ActionData::MoveTo(RelativeDirection::Left));
}

#[test]
fn test_leader_choose_action() {
    let input = "ieysGjGO8papd/a";
    let radar_data = decode_and_format(input).expect("radar decoding failed");

    let player_id = 1;

    let mut position_tracker = HashMap::new();
    position_tracker.insert(player_id, (5, 5));

    let mut tracker = ExplorationTracker::new();
    tracker.set_visit_count((5, 4), 3);
    tracker.set_visit_count((6, 5), 1);
    tracker.set_visit_count((4, 5), 5);
    tracker.set_visit_count((5, 6), 2);

    // A known exit wins outright, radar or not.
    let action = leader_choose_action(
        player_id,
        &radar_data,
        None,
        None,
        &tracker,
        &position_tracker,
        Some((7, 5)),
    );
    assert_eq!(action, ActionData::MoveTo(RelativeDirection::Right));

    // No exit: the grid-shape priority gets a chance.
    let action = leader_choose_action(
        player_id,
        &radar_data,
        Some((10, 10)),
        None,
        &tracker,
        &position_tracker,
        None,
    );
    assert!(matches!(action, ActionData::MoveTo(_)));

    // No exit, no grid: the compass priority gets a chance.
    let action = leader_choose_action(
        player_id,
        &radar_data,
        None,
        Some(900),
        &tracker,
        &position_tracker,
        None,
    );
    assert!(matches!(action, ActionData::MoveTo(_)));

    // Nothing known: the least-visited accessible direction wins;
    // here front (three visits) beats left (five).
    let action = leader_choose_action(
        player_id,
        &radar_data,
        None,
        None,
        &tracker,
        &position_tracker,
        None,
    );
    assert_eq!(action, ActionData::MoveTo(RelativeDirection::Front));
}

#[test]
fn test_position_update() {
    let mut position = maze_agent::Position { x: 5, y: 5 };
    position.update(&RelativeDirection::Front);
    assert_eq!((position.x, position.y), (5, 4));
    position.update(&RelativeDirection::Right);
    assert_eq!((position.x, position.y), (6, 4));
    position.update(&RelativeDirection::Back);
    assert_eq!((position.x, position.y), (6, 5));
    position.update(&RelativeDirection::Left);
    assert_eq!((position.x, position.y), (5, 5));
}

#[test]
fn test_rollback_position() {
    let mut position = (5, 4);
    rollback_position(&mut position, RelativeDirection::Front);
    assert_eq!(position, (5, 5));

    let mut position = (6, 5);
    rollback_position(&mut position, RelativeDirection::Right);
    assert_eq!(position, (5, 5));

    let mut position = (4, 5);
    rollback_position(&mut position, RelativeDirection::Left);
    assert_eq!(position, (5, 5));

    let mut position = (5, 6);
    rollback_position(&mut position, RelativeDirection::Back);
    assert_eq!(position, (5, 5));
}
