use vstd::prelude::*;

use crate::settings::{current_map_selected, has_current_map, waypoints_replaced, Slam};

verus! {

/// A change to the map data of the settings that the remote control asks for.
pub enum MapUpdate<W> {
    /// New waypoints for the current map.
    Waypoints(Vec<W>),
    /// Another current map, or none.
    SelectMap(Option<String>),
}

impl<W> MapUpdate<W> {
    /// The map selection the user interface asks for with `map_name`: the
    /// empty name clears the selection.
    pub fn selection(map_name: String) -> (r: Self)
        ensures
            r matches MapUpdate::SelectMap(sel) && if map_name@.len() == 0 {
                sel is None
            } else {
                sel == Some(map_name)
            },
    {
        if map_name.as_str().is_empty() {
            MapUpdate::SelectMap(None)
        } else {
            MapUpdate::SelectMap(Some(map_name))
        }
    }
}

/// Keeps the map data of the settings (waypoints, current map) in step with
/// the requests of the remote control.
pub struct MapUpdater {}

impl MapUpdater {
    /// Applies `update` to the SLAM settings. Returns whether the settings
    /// changed and have to be written back: always for a map selection,
    /// and for new waypoints only when there is a current map to hold them.
    pub fn apply<W>(slam: &mut Slam<W>, update: MapUpdate<W>) -> (save: bool)
        ensures
            match update {
                MapUpdate::Waypoints(waypoints) => {
                    &&& save == has_current_map(*old(slam))
                    &&& waypoints_replaced(*old(slam), *final(slam), waypoints)
                },
                MapUpdate::SelectMap(name) => {
                    &&& save
                    &&& current_map_selected(*old(slam), *final(slam), name)
                },
            },
    {
        match update {
            MapUpdate::Waypoints(waypoints) => slam.set_waypoints(waypoints),
            MapUpdate::SelectMap(name) => {
                slam.set_current_map_name(name);
                true
            },
        }
    }
}

} // verus!
