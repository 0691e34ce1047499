use vstd::prelude::*;

use crate::settings::{maps_of, SavedMap, Slam};

verus! {

/// A co-visibility edge between two keyframes of the SLAM graph.
#[derive(Debug, Clone, Copy, PartialEq, Eq, Structural)]
pub struct Edge {
    pub id0: u32,
    pub id1: u32,
}

/// What the SLAM tracker reports about itself.
#[derive(Debug, Clone, Copy, PartialEq, Eq, Structural)]
pub enum TrackingState {
    NotInitialized,
    Initializing,
    Tracking,
    Lost,
}

/// How the robot decides where to drive.
#[derive(Debug, Clone, Copy, PartialEq, Eq, Structural)]
pub enum NavigationMode {
    Teleop,
    Goal,
    Waypoints,
}

/// A joypad button press or release.
#[derive(Debug, Clone, Copy, PartialEq, Eq, Structural)]
pub struct InJoyButton {
    pub button_index: i64,
    pub pressed: bool,
}

/// The map catalogue the robot reports to its remote control.
pub struct RobotParams<W> {
    pub maps: Vec<SavedMap<W>>,
    pub current_map_name: Option<String>,
}

/// The navigation mode the user interface lists at position `index`.
pub open spec fn navigation_mode_at(index: int) -> NavigationMode {
    if index == 0 {
        NavigationMode::Teleop
    } else if index == 1 {
        NavigationMode::Goal
    } else {
        NavigationMode::Waypoints
    }
}

impl TrackingState {
    /// The tracking state called `name`, if any.
    pub open spec fn spec_named(name: Seq<char>) -> Option<TrackingState> {
        if name == "NotInitialized"@ {
            Some(TrackingState::NotInitialized)
        } else if name == "Initializing"@ {
            Some(TrackingState::Initializing)
        } else if name == "Tracking"@ {
            Some(TrackingState::Tracking)
        } else if name == "Lost"@ {
            Some(TrackingState::Lost)
        } else {
            None
        }
    }

    /// The tracking state that the SLAM status message `name` reports, if
    /// it names one.
    pub fn from_name(name: &str) -> (r: Option<TrackingState>)
        ensures
            r == TrackingState::spec_named(name@),
    {
        let name = name.to_owned();
        if name == "NotInitialized".to_owned() {
            Some(TrackingState::NotInitialized)
        } else if name == "Initializing".to_owned() {
            Some(TrackingState::Initializing)
        } else if name == "Tracking".to_owned() {
            Some(TrackingState::Tracking)
        } else if name == "Lost".to_owned() {
            Some(TrackingState::Lost)
        } else {
            None
        }
    }
}

impl NavigationMode {
    /// The mode chosen in the user interface's list (teleop, goal, waypoints).
    pub fn from_index(index: usize) -> (r: NavigationMode)
        requires
            index < 3,
        ensures
            r == navigation_mode_at(index as int),
    {
        if index == 0 {
            NavigationMode::Teleop
        } else if index == 1 {
            NavigationMode::Goal
        } else {
            NavigationMode::Waypoints
        }
    }
}

impl<W> RobotParams<W> {
    /// An empty catalogue.
    pub fn new() -> (r: Self)
        ensures
            r.maps@.len() == 0,
            r.current_map_name is None,
    {
        RobotParams { maps: Vec::new(), current_map_name: None }
    }

    /// The catalogue read off the SLAM settings: their maps, in order, and
    /// the name of their current map.
    pub fn from_slam(slam: Slam<W>) -> (r: Self)
        ensures
            r.maps@ == maps_of(slam.maps),
            r.current_map_name == slam.current_map_name,
    {
        let mut params = RobotParams::new();
        params.current_map_name = slam.current_map_name;
        match slam.maps {
            Some(maps) => {
                params.maps = maps;
            },
            None => {},
        }
        params
    }
}

} // verus!
