use vstd::prelude::*;

use std::collections::HashMap;

use crate::types::TrackingState;

verus! {

broadcast use vstd::std_specs::hash::group_hash_axioms;

/// The remote control's copy of the SLAM map as the robot streams it:
/// landmarks and keyframes by id, the keyframe the view is anchored to
/// (the first one that arrived), and the tracker's last reported state.
///
/// What is kept of a landmark (`L`) and of a keyframe (`K`) is left to the
/// renderer.
pub struct MapMirror<L, K> {
    pub landmarks: HashMap<u32, L>,
    pub keyframes: HashMap<u32, K>,
    pub marked_keyframe: Option<u32>,
    pub tracker_state: TrackingState,
}

/// `m` with `id` bound to `value`, or without `id` when there is no value.
pub open spec fn updated<V>(m: Map<u32, V>, id: u32, value: Option<V>) -> Map<u32, V> {
    match value {
        Some(v) => m.insert(id, v),
        None => m.remove(id),
    }
}

impl<L, K> MapMirror<L, K> {
    /// An empty map, no anchor, tracker not initialized.
    pub fn new() -> (r: Self)
        ensures
            r.landmarks@ == Map::<u32, L>::empty(),
            r.keyframes@ == Map::<u32, K>::empty(),
            r.marked_keyframe is None,
            r.tracker_state == TrackingState::NotInitialized,
    {
        MapMirror {
            landmarks: HashMap::new(),
            keyframes: HashMap::new(),
            marked_keyframe: None,
            tracker_state: TrackingState::NotInitialized,
        }
    }

    /// Takes in a landmark update: a position keeps (or moves) the
    /// landmark, no position means the landmark was dropped.
    pub fn update_landmark(&mut self, id: u32, value: Option<L>)
        ensures
            final(self).landmarks@ == updated(old(self).landmarks@, id, value),
            final(self).keyframes@ == old(self).keyframes@,
            final(self).marked_keyframe == old(self).marked_keyframe,
            final(self).tracker_state == old(self).tracker_state,
    {
        match value {
            Some(v) => {
                self.landmarks.insert(id, v);
            },
            None => {
                self.landmarks.remove(&id);
            },
        }
    }

    /// Takes in a keyframe update: a pose keeps (or moves) the keyframe, no
    /// pose means the keyframe was dropped. The first keyframe that arrives
    /// with a pose becomes the anchor, and stays the anchor.
    pub fn update_keyframe(&mut self, id: u32, value: Option<K>)
        ensures
            final(self).keyframes@ == updated(old(self).keyframes@, id, value),
            final(self).landmarks@ == old(self).landmarks@,
            final(self).tracker_state == old(self).tracker_state,
            final(self).marked_keyframe == if old(self).marked_keyframe is None && value is Some {
                Some(id)
            } else {
                old(self).marked_keyframe
            },
    {
        match value {
            Some(v) => {
                self.keyframes.insert(id, v);
                if self.marked_keyframe.is_none() {
                    self.marked_keyframe = Some(id);
                }
            },
            None => {
                self.keyframes.remove(&id);
            },
        }
    }

    /// Takes in a status message of the SLAM system: a `TRACKING_STATE`
    /// message that names a tracking state sets it; anything else changes
    /// nothing.
    pub fn on_message(&mut self, tag: &str, text: &str)
        ensures
            final(self).landmarks@ == old(self).landmarks@,
            final(self).keyframes@ == old(self).keyframes@,
            final(self).marked_keyframe == old(self).marked_keyframe,
            final(self).tracker_state == if tag@ == "TRACKING_STATE"@ {
                match TrackingState::spec_named(text@) {
                    Some(s) => s,
                    None => old(self).tracker_state,
                }
            } else {
                old(self).tracker_state
            },
    {
        if tag.to_owned() == "TRACKING_STATE".to_owned() {
            match TrackingState::from_name(text) {
                Some(s) => {
                    self.tracker_state = s;
                },
                None => {},
            }
        }
    }

    /// What is kept of the anchor keyframe, if there is one and it is still
    /// in the map.
    pub fn marked(&self) -> (r: Option<&K>)
        ensures
            match self.marked_keyframe {
                Some(id) => match r {
                    Some(k) => self.keyframes@.contains_key(id) && *k == self.keyframes@[id],
                    None => !self.keyframes@.contains_key(id),
                },
                None => r is None,
            },
    {
        match self.marked_keyframe {
            Some(id) => self.keyframes.get(&id),
            None => None,
        }
    }
}

} // verus!
