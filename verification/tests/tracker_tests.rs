use maze_agent::memory::PlayerMemory;
use maze_agent::tracker::ExplorationTracker;
use maze_agent::RelativeDirection;

#[test]
fn test_exploration_tracker_new() {
    let tracker = ExplorationTracker::new();
    assert!(tracker.visited_is_empty());
    assert_eq!(tracker.history_len(), 0);
    assert_eq!(tracker.last_direction(), None);
}

#[test]
fn test_mark_position() {
    let mut tracker = ExplorationTracker::new();

    tracker.mark_position((2, 3), RelativeDirection::Front);
    assert_eq!(tracker.get_visit_count((2, 3)), Some(1));
    assert_eq!(tracker.history_len(), 1);
    assert!(tracker.history_contains((2, 3)));
    assert_eq!(tracker.last_direction(), Some(RelativeDirection::Front));

    for i in 0..10 {
        tracker.mark_position((i, i), RelativeDirection::Right);
    }
    // The history is capped at eight entries...
    assert_eq!(tracker.history_len(), 8);
    // ...so the oldest entries have been evicted.
    assert!(!tracker.history_contains((2, 3)));
    assert!(!tracker.history_contains((0, 0)));
    assert!(!tracker.history_contains((1, 1)));
    assert!(tracker.history_contains((2, 2)));
    assert!(tracker.history_contains((9, 9)));
}

#[test]
fn test_is_recently_visited() {
    let mut tracker = ExplorationTracker::new();

    assert_eq!(tracker.is_recently_visited((3, 4)), false);

    tracker.mark_position((1, 1), RelativeDirection::Front);
    tracker.mark_position((2, 2), RelativeDirection::Front);
    tracker.mark_position((3, 3), RelativeDirection::Front);
    tracker.mark_position((4, 4), RelativeDirection::Front);
    assert_eq!(tracker.is_recently_visited((3, 3)), false);

    tracker.mark_position((5, 5), RelativeDirection::Front);
    assert_eq!(tracker.is_recently_visited((3, 3)), true);
    assert_eq!(tracker.is_recently_visited((10, 10)), false);
    // The most recently appended slot does not count.
    assert_eq!(tracker.is_recently_visited((5, 5)), false);
}

#[test]
fn test_visit_counts() {
    let mut tracker = ExplorationTracker::new();
    assert_eq!(tracker.visit_count((1, 1)), 0);
    assert_eq!(tracker.get_visit_count((1, 1)), None);

    tracker.mark_position((1, 1), RelativeDirection::Back);
    tracker.mark_position((1, 1), RelativeDirection::Back);
    assert_eq!(tracker.visit_count((1, 1)), 2);

    tracker.set_visit_count((1, 1), 7);
    assert_eq!(tracker.get_visit_count((1, 1)), Some(7));
}

#[test]
fn test_player_memory_capacity() {
    let mut memory = PlayerMemory::new();
    assert_eq!(memory.history_len(), 0);
    assert_eq!(memory.last_direction(), None);

    for i in 0..7 {
        memory.update_position((i, 0));
    }
    // Capacity five: the two oldest positions are gone.
    assert_eq!(memory.history_len(), 5);

    memory.set_last_direction(RelativeDirection::Left);
    assert_eq!(memory.last_direction(), Some(RelativeDirection::Left));
}

#[test]
fn test_player_memory_looping() {
    let mut memory = PlayerMemory::new();
    memory.update_position((0, 0));
    memory.update_position((1, 0));
    memory.update_position((1, 1));
    assert!(!memory.is_looping());

    memory.update_position((0, 0));
    assert!(memory.is_looping());
}
