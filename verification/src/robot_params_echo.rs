use vstd::prelude::*;

use crate::msg::MsgKind;

verus! {

/// Answers the remote control's requests for the robot's map catalogue.
pub struct RobotParamsEcho {}

impl RobotParamsEcho {
    /// Whether a message of kind `kind` asks for the map catalogue.
    pub fn answers(kind: MsgKind) -> (r: bool)
        ensures
            r <==> kind == MsgKind::RequestRobotParams,
    {
        match kind {
            MsgKind::RequestRobotParams => true,
            _ => false,
        }
    }
}

} // verus!
