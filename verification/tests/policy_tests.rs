use maze_agent::policy::{direction_from_angle, direction_from_grid_size};
use maze_agent::RelativeDirection::{Back, Front, Left, Right};

#[test]
fn test_direction_from_angle_quadrants() {
    // Angles are in tenths of a degree: 30 degrees is 300.
    assert_eq!(direction_from_angle(300), vec![Front, Right, Left, Back]);
    assert_eq!(direction_from_angle(900), vec![Right, Front, Back, Left]);
    assert_eq!(direction_from_angle(1800), vec![Back, Left, Right, Front]);
    assert_eq!(direction_from_angle(2700), vec![Left, Front, Back, Right]);
}

#[test]
fn test_direction_from_angle_boundaries() {
    assert_eq!(direction_from_angle(450), vec![Front, Right, Left, Back]);
    assert_eq!(direction_from_angle(451), vec![Right, Front, Back, Left]);
    assert_eq!(direction_from_angle(3150), vec![Left, Front, Back, Right]);
    assert_eq!(direction_from_angle(3151), vec![Front, Right, Left, Back]);
}

#[test]
fn test_direction_from_angle_normalization() {
    // One turn more or less changes nothing; negative angles wrap.
    assert_eq!(direction_from_angle(3600), vec![Front, Right, Left, Back]);
    assert_eq!(direction_from_angle(4500), vec![Right, Front, Back, Left]);
    assert_eq!(direction_from_angle(-450), vec![Left, Front, Back, Right]);
    assert_eq!(direction_from_angle(-3600), vec![Front, Right, Left, Back]);
}

#[test]
fn test_direction_from_grid_size() {
    // Wider than tall favors horizontal movement.
    assert_eq!(direction_from_grid_size(Some((10, 5))), vec![Right, Left, Front, Back]);
    // Taller or square favors vertical movement.
    assert_eq!(direction_from_grid_size(Some((5, 10))), vec![Front, Back, Right, Left]);
    assert_eq!(direction_from_grid_size(Some((10, 10))), vec![Front, Back, Right, Left]);
    // Unknown shape gets the fixed default.
    assert_eq!(direction_from_grid_size(None), vec![Front, Right, Left, Back]);
}
