use vstd::prelude::*;

use crate::types::{NavigationMode, TrackingState};

verus! {

/// Where the goal lies as seen from the robot: within the angle the robot
/// drives straight at, to its left, or to its right.
#[derive(Debug, Clone, Copy, PartialEq, Eq, Structural)]
pub enum Heading {
    Ahead,
    Left,
    Right,
}

/// What the wheels are told on one tick: stand still, follow the remote
/// control, drive ahead, or turn on the spot.
#[derive(Debug, Clone, Copy, PartialEq, Eq, Structural)]
pub enum WheelCommand {
    Stop,
    Teleop,
    Travel,
    TurnLeft,
    TurnRight,
}

/// Decides what the wheels do on one tick.
///
/// Under teleoperation the wheels follow the remote control while its last
/// command is fresh, and stop once it is stale. Driving to a goal, the robot
/// stops unless its pose is fresh and the tracker is tracking; it also stops
/// without a goal and within the goal's tolerance, and otherwise drives
/// ahead or turns towards the goal. Waypoint following does not move the
/// wheels.
pub fn wheel_command(
    mode: NavigationMode,
    teleop_fresh: bool,
    pose_fresh: bool,
    tracking: TrackingState,
    has_target: bool,
    within_goal: bool,
    heading: Heading,
) -> (r: WheelCommand)
    ensures
        r == match mode {
            NavigationMode::Teleop => if teleop_fresh {
                WheelCommand::Teleop
            } else {
                WheelCommand::Stop
            },
            NavigationMode::Goal => if !pose_fresh || tracking != TrackingState::Tracking
                || !has_target || within_goal {
                WheelCommand::Stop
            } else {
                match heading {
                    Heading::Ahead => WheelCommand::Travel,
                    Heading::Left => WheelCommand::TurnLeft,
                    Heading::Right => WheelCommand::TurnRight,
                }
            },
            NavigationMode::Waypoints => WheelCommand::Stop,
        },
{
    match mode {
        NavigationMode::Teleop => {
            if teleop_fresh {
                WheelCommand::Teleop
            } else {
                WheelCommand::Stop
            }
        },
        NavigationMode::Goal => {
            if !pose_fresh || tracking != TrackingState::Tracking {
                WheelCommand::Stop
            } else if !has_target {
                WheelCommand::Stop
            } else if within_goal {
                WheelCommand::Stop
            } else {
                match heading {
                    Heading::Ahead => WheelCommand::Travel,
                    Heading::Left => WheelCommand::TurnLeft,
                    Heading::Right => WheelCommand::TurnRight,
                }
            }
        },
        NavigationMode::Waypoints => WheelCommand::Stop,
    }
}

} // verus!
