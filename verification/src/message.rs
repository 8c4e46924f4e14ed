//! The typed message data the decision core consumes and produces.
//!
//! These are the payloads of the narrow interface to the transport
//! layer: hints that arrive from the environment, challenges to
//! solve, the actions an agent sends back, and the action errors the
//! server may report. Serialization itself happens outside the
//! library; the core only ever sees these plain values.

use vstd::prelude::*;
use crate::direction::RelativeDirection;

verus! {

/// An action an agent submits to the server.
#[derive(Clone, Debug, PartialEq)]
pub enum ActionData {
    /// Move one cell in a relative direction.
    MoveTo(RelativeDirection),
    /// Answer the pending challenge.
    SolveChallenge { answer: String },
}

/// An action paired with the player who chose it, as reported on the
/// observability channel.
#[derive(Clone, Debug, PartialEq)]
pub struct PlayerAction {
    /// The player that performed the action.
    pub player_id: u32,
    /// What the player did.
    pub action: ActionData,
}

/// A hint broadcast by the environment. Angles are carried in tenths
/// of a degree (90 degrees is 900) so the value stays exact.
#[derive(Clone, Copy, Debug, PartialEq)]
pub enum HintData {
    /// A compass pointing toward the exit, relative to the agent.
    RelativeCompass { angle_decidegrees: i64 },
    /// The overall size of the maze.
    GridSize { columns: u32, rows: u32 },
    /// A secret value for the team's challenge bookkeeping.
    Secret(u128),
    /// A teammate asked for help; carries no data.
    SOSHelper,
}

/// A challenge the server poses.
#[derive(Clone, Copy, Debug, PartialEq)]
pub enum ChallengeData {
    /// Answer with the sum of all known team secrets, reduced modulo
    /// the given value.
    SecretSumModulo(u128),
    /// A distress challenge; carries no data.
    SOS,
}

/// An error the server reports in response to an action.
#[derive(Clone, Copy, Debug, PartialEq, Eq, Structural)]
pub enum ActionError {
    /// The requested move runs into a wall.
    CannotPassThroughWall,
    /// The requested move runs into another player.
    CannotPassThroughOpponent,
    /// A challenge answer arrived while no challenge is running.
    NoRunningChallenge,
    /// The pending challenge must be solved before anything else.
    SolveChallengeFirst,
    /// The submitted challenge answer was wrong.
    InvalidChallengeSolution,
}

/// What the agent should do about a reported action error.
#[derive(Clone, Copy, Debug, PartialEq, Eq, Structural)]
pub enum ErrorReaction {
    /// Recompute the last challenge answer and submit it again.
    ResubmitChallenge,
    /// Undo the speculative position update of the rejected move.
    RevertMove,
    /// Nothing to correct; at most worth logging.
    LogOnly,
}

/// The reaction each action error calls for: a rejected challenge
/// answer is recomputed and resubmitted, a wall collision invalidates
/// the speculative position update that preceded it, and every other
/// error is informational.
pub open spec fn reaction_for(error: ActionError) -> ErrorReaction {
    match error {
        ActionError::InvalidChallengeSolution => ErrorReaction::ResubmitChallenge,
        ActionError::CannotPassThroughWall => ErrorReaction::RevertMove,
        _ => ErrorReaction::LogOnly,
    }
}

/// Classifies a reported action error into the reaction it calls for.
pub fn error_reaction(error: &ActionError) -> (r: ErrorReaction)
    ensures
        r == reaction_for(*error),
{
    match error {
        ActionError::InvalidChallengeSolution => ErrorReaction::ResubmitChallenge,
        ActionError::CannotPassThroughWall => ErrorReaction::RevertMove,
        _ => ErrorReaction::LogOnly,
    }
}

} // verus!
