//! Direction priority policies.
//!
//! Two pure hints-to-priorities mappings: one turns a compass angle
//! into an ordering of the four relative directions, the other turns
//! the maze's overall shape into one. Both always return a total
//! order: each direction exactly once.
//!
//! Angles are carried in tenths of a degree so the arithmetic stays
//! exact; 90 degrees is written 900.

use vstd::prelude::*;
use crate::direction::RelativeDirection;

verus! {

/// The priority order a compass angle induces. The angle, in tenths
/// of a degree, is normalized into [0, 3600) and partitioned into the
/// four quadrants centered on 0, 90, 180 and 270 degrees; the nearest
/// direction comes first, then its neighbors, then the opposite.
pub open spec fn angle_priority(angle_decidegrees: int) -> Seq<RelativeDirection> {
    let a = angle_decidegrees % 3600;
    if a <= 450 || a > 3150 {
        seq![
            RelativeDirection::Front,
            RelativeDirection::Right,
            RelativeDirection::Left,
            RelativeDirection::Back,
        ]
    } else if a <= 1350 {
        seq![
            RelativeDirection::Right,
            RelativeDirection::Front,
            RelativeDirection::Back,
            RelativeDirection::Left,
        ]
    } else if a <= 2250 {
        seq![
            RelativeDirection::Back,
            RelativeDirection::Left,
            RelativeDirection::Right,
            RelativeDirection::Front,
        ]
    } else {
        seq![
            RelativeDirection::Left,
            RelativeDirection::Front,
            RelativeDirection::Back,
            RelativeDirection::Right,
        ]
    }
}

/// The priority order the grid shape induces: a maze wider than tall
/// favors horizontal movement, any other known shape favors vertical,
/// and an unknown shape gets a fixed default.
pub open spec fn grid_priority(grid_size: Option<(u32, u32)>) -> Seq<RelativeDirection> {
    match grid_size {
        Some((columns, rows)) => if columns > rows {
            seq![
                RelativeDirection::Right,
                RelativeDirection::Left,
                RelativeDirection::Front,
                RelativeDirection::Back,
            ]
        } else {
            seq![
                RelativeDirection::Front,
                RelativeDirection::Back,
                RelativeDirection::Right,
                RelativeDirection::Left,
            ]
        },
        None => seq![
            RelativeDirection::Front,
            RelativeDirection::Right,
            RelativeDirection::Left,
            RelativeDirection::Back,
        ],
    }
}

/// Orders the four directions by how well they match a compass angle
/// given in tenths of a degree (which may be negative or beyond one
/// full turn).
pub fn direction_from_angle(angle_decidegrees: i64) -> (r: Vec<RelativeDirection>)
    ensures
        r@ == angle_priority(angle_decidegrees as int),
{
    let m: i64 = angle_decidegrees % 3600;
    let a: i64 = if m < 0 {
        m + 3600
    } else {
        m
    };
    assert(a == angle_decidegrees as int % 3600);
    let mut r: Vec<RelativeDirection> = Vec::new();
    if a <= 450 || a > 3150 {
        r.push(RelativeDirection::Front);
        r.push(RelativeDirection::Right);
        r.push(RelativeDirection::Left);
        r.push(RelativeDirection::Back);
    } else if a <= 1350 {
        r.push(RelativeDirection::Right);
        r.push(RelativeDirection::Front);
        r.push(RelativeDirection::Back);
        r.push(RelativeDirection::Left);
    } else if a <= 2250 {
        r.push(RelativeDirection::Back);
        r.push(RelativeDirection::Left);
        r.push(RelativeDirection::Right);
        r.push(RelativeDirection::Front);
    } else {
        r.push(RelativeDirection::Left);
        r.push(RelativeDirection::Front);
        r.push(RelativeDirection::Back);
        r.push(RelativeDirection::Right);
    }
    proof {
        assert(r@ =~= angle_priority(angle_decidegrees as int));
    }
    r
}

/// Orders the four directions by how well they suit the maze's shape,
/// if it is known.
pub fn direction_from_grid_size(grid_size: Option<(u32, u32)>) -> (r: Vec<RelativeDirection>)
    ensures
        r@ == grid_priority(grid_size),
{
    let mut r: Vec<RelativeDirection> = Vec::new();
    match grid_size {
        Some((columns, rows)) => {
            if columns > rows {
                r.push(RelativeDirection::Right);
                r.push(RelativeDirection::Left);
                r.push(RelativeDirection::Front);
                r.push(RelativeDirection::Back);
            } else {
                r.push(RelativeDirection::Front);
                r.push(RelativeDirection::Back);
                r.push(RelativeDirection::Right);
                r.push(RelativeDirection::Left);
            }
        },
        None => {
            r.push(RelativeDirection::Front);
            r.push(RelativeDirection::Right);
            r.push(RelativeDirection::Left);
            r.push(RelativeDirection::Back);
        },
    }
    proof {
        assert(r@ =~= grid_priority(grid_size));
    }
    r
}

} // verus!
