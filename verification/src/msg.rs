use vstd::prelude::*;

verus! {

/// The kinds of message that travel on the robot's message bus.
#[derive(Debug, Clone, Copy, PartialEq, Eq, Structural)]
pub enum MsgKind {
    TrackingState,
    Edges,
    Keyframes,
    Landmarks,
    CameraPose,
    Frame,
    Detections,
    MapScale,
    NavigatorState,
    SystemStatus,
    TerminateSlam,
    SaveMapDB,
    SelectMap,
    UseRawPreview,
    Teleop,
    SetNavigationMode,
    NavTarget,
    Waypoints,
    EnableAutoNav,
    RequestRobotParams,
    RobotParams,
    RequestToRobot,
}

/// The message kinds that the remote control sends to the robot.
pub open spec fn mirrors_commands() -> Set<MsgKind> {
    set![
        MsgKind::Teleop,
        MsgKind::SetNavigationMode,
        MsgKind::SaveMapDB,
        MsgKind::NavTarget,
        MsgKind::SelectMap,
        MsgKind::Waypoints,
        MsgKind::EnableAutoNav,
        MsgKind::TerminateSlam,
        MsgKind::UseRawPreview,
        MsgKind::RequestRobotParams,
    ]
}

impl MsgKind {
    /// Whether a message of this kind is a command of the remote control.
    /// The robot forwards everything else to the remote control, and the
    /// remote control forwards only these to the robot.
    pub fn is_mirrors_command(&self) -> (r: bool)
        ensures
            r <==> mirrors_commands().contains(*self),
    {
        match self {
            MsgKind::Teleop
            | MsgKind::SetNavigationMode
            | MsgKind::SaveMapDB
            | MsgKind::NavTarget
            | MsgKind::SelectMap
            | MsgKind::Waypoints
            | MsgKind::EnableAutoNav
            | MsgKind::TerminateSlam
            | MsgKind::UseRawPreview
            | MsgKind::RequestRobotParams => true,
            _ => false,
        }
    }
}

/// The remote control's commands are exactly the ten kinds it sends to the
/// robot; everything the robot produces (OpenVSlam's output, detections,
/// the map scale, the navigator's and the system's status, the robot's
/// parameters) and the robot's own requests go the other way.
pub proof fn law_commands_are_what_the_remote_control_sends(k: MsgKind)
    ensures
        mirrors_commands().contains(k) <==> (k == MsgKind::Teleop || k
            == MsgKind::SetNavigationMode || k == MsgKind::SaveMapDB || k == MsgKind::NavTarget
            || k == MsgKind::SelectMap || k == MsgKind::Waypoints || k == MsgKind::EnableAutoNav
            || k == MsgKind::TerminateSlam || k == MsgKind::UseRawPreview || k
            == MsgKind::RequestRobotParams),
        k == MsgKind::TrackingState || k == MsgKind::Edges || k == MsgKind::Keyframes || k
            == MsgKind::Landmarks || k == MsgKind::CameraPose || k == MsgKind::Frame || k
            == MsgKind::Detections || k == MsgKind::MapScale || k == MsgKind::NavigatorState || k
            == MsgKind::SystemStatus || k == MsgKind::RobotParams || k == MsgKind::RequestToRobot
            ==> !mirrors_commands().contains(k),
{
}

} // verus!
