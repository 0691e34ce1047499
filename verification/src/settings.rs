use vstd::prelude::*;

verus! {

/// A SLAM map the robot knows about: its name, the file that holds its
/// database, and the waypoints recorded on it.
///
/// The waypoint type is left open; the robot stores planar goals there.
pub struct SavedMap<W> {
    pub name: String,
    pub db_path: String,
    pub waypoints: Vec<W>,
}

/// The SLAM part of the robot's settings.
pub struct Slam<W> {
    pub openvslam_config: String,
    pub vocab: String,
    pub gstreamer_pipeline: Option<String>,
    pub video: Option<String>,
    pub mask: Option<String>,
    pub current_map_name: Option<String>,
    pub maps: Option<Vec<SavedMap<W>>>,
    pub enable_auto_slace_estimation: bool,
}

/// The maps of the settings, an absent list read as an empty one.
pub open spec fn maps_of<W>(maps: Option<Vec<SavedMap<W>>>) -> Seq<SavedMap<W>> {
    match maps {
        Some(v) => v@,
        None => Seq::empty(),
    }
}

/// `i` is the first position of `maps` whose map is called `name`.
pub open spec fn is_first_named<W>(maps: Seq<SavedMap<W>>, name: Seq<char>, i: int) -> bool {
    &&& 0 <= i < maps.len()
    &&& maps[i].name@ == name
    &&& forall|j: int| 0 <= j < i ==> maps[j].name@ != name
}

/// Some map of `maps` is called `name`.
pub open spec fn has_named<W>(maps: Seq<SavedMap<W>>, name: Seq<char>) -> bool {
    exists|i: int| 0 <= i < maps.len() && maps[i].name@ == name
}

/// `after` is `before` with the database path of every map called `name`
/// set to `db`, everything else kept.
pub open spec fn db_paths_replaced<W>(
    before: Seq<SavedMap<W>>,
    after: Seq<SavedMap<W>>,
    name: Seq<char>,
    db: Seq<char>,
) -> bool {
    &&& after.len() == before.len()
    &&& forall|i: int|
        #![trigger after[i]]
        0 <= i < before.len() ==> {
            &&& after[i].name == before[i].name
            &&& after[i].waypoints == before[i].waypoints
            &&& if before[i].name@ == name {
                after[i].db_path@ == db
            } else {
                after[i].db_path == before[i].db_path
            }
        }
}

/// `after` keeps every setting of `before` but the map list and the
/// current map name.
pub open spec fn same_paths_and_flags<W>(before: Slam<W>, after: Slam<W>) -> bool {
    &&& after.openvslam_config == before.openvslam_config
    &&& after.vocab == before.vocab
    &&& after.gstreamer_pipeline == before.gstreamer_pipeline
    &&& after.video == before.video
    &&& after.mask == before.mask
    &&& after.enable_auto_slace_estimation == before.enable_auto_slace_estimation
}

/// `before` has a current map: a map carrying the current map name.
pub open spec fn has_current_map<W>(before: Slam<W>) -> bool {
    match (before.maps, before.current_map_name) {
        (Some(maps), Some(name)) => has_named(maps@, name@),
        _ => false,
    }
}

/// `after` is `before` with the waypoints of its current map replaced by
/// `waypoints` when it has a current map, and `before` unchanged otherwise.
pub open spec fn waypoints_replaced<W>(before: Slam<W>, after: Slam<W>, waypoints: Vec<W>) -> bool {
    &&& same_paths_and_flags(before, after)
    &&& after.current_map_name == before.current_map_name
    &&& if has_current_map(before) {
        let name = before.current_map_name->0@;
        let maps = maps_of(before.maps);
        &&& after.maps is Some
        &&& exists|i: int|
            is_first_named(maps, name, i) && maps_of(after.maps) == maps.update(
                i,
                SavedMap { waypoints: waypoints, ..maps[i] },
            )
    } else {
        after.maps == before.maps
    }
}

/// `after` is `before` with `name` as its current map name.
pub open spec fn current_map_selected<W>(before: Slam<W>, after: Slam<W>, name: Option<String>) -> bool {
    &&& same_paths_and_flags(before, after)
    &&& after.maps == before.maps
    &&& after.current_map_name == name
}

/// `after` is `before` with the map `name` recorded at `db`: when maps of
/// that name exist, all of them point to `db`; otherwise a new map of that
/// name, at `db`, without waypoints, ends the list.
pub open spec fn map_added<W>(before: Slam<W>, after: Slam<W>, name: Seq<char>, db: Seq<char>) -> bool {
    &&& same_paths_and_flags(before, after)
    &&& after.current_map_name == before.current_map_name
    &&& after.maps is Some
    &&& ({
        let b = maps_of(before.maps);
        let a = maps_of(after.maps);
        if has_named(b, name) {
            db_paths_replaced(b, a, name, db)
        } else {
            &&& a.len() == b.len() + 1
            &&& a.drop_last() == b
            &&& a.last().name@ == name
            &&& a.last().db_path@ == db
            &&& a.last().waypoints@.len() == 0
        }
    })
}

/// Position of the first map called `name`, if there is one.
pub fn find_map<W>(maps: &Vec<SavedMap<W>>, name: &String) -> (r: Option<usize>)
    ensures
        match r {
            Some(i) => is_first_named(maps@, name@, i as int),
            None => !has_named(maps@, name@),
        },
{
    let mut i: usize = 0;
    while i < maps.len()
        invariant
            i <= maps@.len(),
            forall|j: int| 0 <= j < i ==> maps@[j].name@ != name@,
        decreases maps@.len() - i,
    {
        if maps[i].name == *name {
            return Some(i);
        }
        i = i + 1;
    }
    None
}

impl<W> Slam<W> {
    /// Position of the current map in the map list: the first map that
    /// carries the current map name. `None` when no map is selected, when
    /// there is no map list, or when no map carries that name.
    pub fn current_map_index(&self) -> (r: Option<usize>)
        ensures
            match (self.maps, self.current_map_name) {
                (Some(maps), Some(name)) => match r {
                    Some(i) => is_first_named(maps@, name@, i as int),
                    None => !has_named(maps@, name@),
                },
                _ => r is None,
            },
    {
        match (&self.maps, &self.current_map_name) {
            (Some(maps), Some(name)) => find_map(maps, name),
            _ => None,
        }
    }

    /// The current map: the first map that carries the current map name.
    pub fn get_current_map(&self) -> (r: Option<&SavedMap<W>>)
        ensures
            match (self.maps, self.current_map_name) {
                (Some(maps), Some(name)) => match r {
                    Some(m) => exists|i: int| is_first_named(maps@, name@, i) && *m == maps@[i],
                    None => !has_named(maps@, name@),
                },
                _ => r is None,
            },
    {
        match (&self.maps, &self.current_map_name) {
            (Some(maps), Some(name)) => match find_map(maps, name) {
                Some(i) => Some(&maps[i]),
                None => None,
            },
            _ => None,
        }
    }

    /// Records the map `map_name` with the database at `db_path`: every map
    /// of that name gets the new path; when there is none, a new map without
    /// waypoints is added at the end. An absent map list becomes a list.
    pub fn add_map(&mut self, map_name: String, db_path: String)
        ensures
            map_added(*old(self), *final(self), map_name@, db_path@),
    {
        let mut taken: Option<Vec<SavedMap<W>>> = None;
        std::mem::swap(&mut taken, &mut self.maps);
        let mut maps: Vec<SavedMap<W>> = match taken {
            Some(v) => v,
            None => Vec::new(),
        };
        let ghost before = maps@;
        let mut map_updated = false;
        let mut i: usize = 0;
        while i < maps.len()
            invariant
                maps@.len() == before.len(),
                i <= before.len(),
                map_updated <==> exists|j: int| 0 <= j < i && before[j].name@ == map_name@,
                forall|j: int|
                    #![trigger maps@[j]]
                    i <= j < before.len() ==> maps@[j] == before[j],
                forall|j: int|
                    #![trigger maps@[j]]
                    0 <= j < i ==> {
                        &&& maps@[j].name == before[j].name
                        &&& maps@[j].waypoints == before[j].waypoints
                        &&& if before[j].name@ == map_name@ {
                            maps@[j].db_path@ == db_path@
                        } else {
                            maps@[j].db_path == before[j].db_path
                        }
                    },
            decreases before.len() - i,
        {
            if maps[i].name == map_name {
                maps[i].db_path = db_path.clone();
                map_updated = true;
            }
            i = i + 1;
        }
        if !map_updated {
            maps.push(SavedMap { name: map_name, db_path, waypoints: Vec::new() });
            assert(maps@.drop_last() == before);
        }
        self.maps = Some(maps);
        assert(maps_of(self.maps) == maps@);
    }

    /// Selects the current map by name, or clears the selection.
    pub fn set_current_map_name(&mut self, map_name: Option<String>)
        ensures
            current_map_selected(*old(self), *final(self), map_name),
    {
        self.current_map_name = map_name;
    }

    /// Replaces the waypoints of the current map. Returns whether there was
    /// a current map; when there was none, nothing changes.
    pub fn set_waypoints(&mut self, waypoints: Vec<W>) -> (changed: bool)
        ensures
            changed == has_current_map(*old(self)),
            waypoints_replaced(*old(self), *final(self), waypoints),
    {
        match self.current_map_index() {
            Some(i) => {
                let mut taken: Option<Vec<SavedMap<W>>> = None;
                std::mem::swap(&mut taken, &mut self.maps);
                let mut maps = taken.unwrap();
                let ghost before = maps@;
                let ghost new_waypoints = waypoints;
                maps[i].waypoints = waypoints;
                assert(maps@ =~= before.update(
                    i as int,
                    SavedMap { waypoints: new_waypoints, ..before[i as int] },
                ));
                self.maps = Some(maps);
                assert(is_first_named(before, self.current_map_name->0@, i as int));
                true
            },
            None => false,
        }
    }
}

/// A recorded map can be found again: after `add_map(name, db)`, the first
/// map called `name` points to `db`.
pub proof fn law_added_map_found<W>(before: Slam<W>, after: Slam<W>, name: Seq<char>, db: Seq<char>)
    requires
        map_added(before, after, name, db),
    ensures
        has_named(maps_of(after.maps), name),
        forall|i: int| #[trigger]
            is_first_named(maps_of(after.maps), name, i) ==> maps_of(after.maps)[i].db_path@ == db,
{
    let b = maps_of(before.maps);
    let a = maps_of(after.maps);
    if has_named(b, name) {
        let k = choose|k: int| 0 <= k < b.len() && b[k].name@ == name;
        assert(a[k].name == b[k].name);
    } else {
        assert(a[a.len() - 1] == a.last());
        assert forall|i: int| #[trigger] is_first_named(a, name, i) implies a[i].db_path@ == db by {
            if i < a.len() - 1 {
                assert(a.drop_last()[i] == a[i]);
                assert(b[i].name@ == name);
            }
        }
    }
}

/// Recording a map under a name that is already known adds no map: the
/// list keeps its length, and the names in it stay as they were.
pub proof fn law_add_map_no_duplicate<W>(before: Slam<W>, after: Slam<W>, name: Seq<char>, db: Seq<char>)
    requires
        map_added(before, after, name, db),
        has_named(maps_of(before.maps), name),
    ensures
        maps_of(after.maps).len() == maps_of(before.maps).len(),
        forall|i: int|
            0 <= i < maps_of(after.maps).len() ==> #[trigger] maps_of(after.maps)[i].name
                == maps_of(before.maps)[i].name,
{
}

/// A map that was just recorded and then selected is the current map, and
/// it points to the database it was recorded with.
pub proof fn law_add_then_select<W>(
    s0: Slam<W>,
    s1: Slam<W>,
    s2: Slam<W>,
    name: String,
    db: Seq<char>,
)
    requires
        map_added(s0, s1, name@, db),
        current_map_selected(s1, s2, Some(name)),
    ensures
        has_current_map(s2),
        forall|i: int| #[trigger]
            is_first_named(maps_of(s2.maps), name@, i) ==> maps_of(s2.maps)[i].db_path@ == db,
{
    law_added_map_found(s0, s1, name@, db);
}

/// New waypoints can be read back: after `set_waypoints(w)` on settings
/// with a current map, the current map (the first map of the current name)
/// holds exactly `w`, and every other map is as it was.
pub proof fn law_waypoints_read_back<W>(before: Slam<W>, after: Slam<W>, waypoints: Vec<W>)
    requires
        waypoints_replaced(before, after, waypoints),
        has_current_map(before),
    ensures
        has_current_map(after),
        forall|i: int| #[trigger]
            is_first_named(maps_of(after.maps), after.current_map_name->0@, i) ==> maps_of(
                after.maps,
            )[i].waypoints == waypoints,
        maps_of(after.maps).len() == maps_of(before.maps).len(),
        forall|i: int|
            0 <= i < maps_of(after.maps).len() && !is_first_named(
                maps_of(before.maps),
                before.current_map_name->0@,
                i,
            ) ==> #[trigger] maps_of(after.maps)[i] == maps_of(before.maps)[i],
{
    let name = before.current_map_name->0@;
    let b = maps_of(before.maps);
    let a = maps_of(after.maps);
    let k = choose|k: int|
        is_first_named(b, name, k) && a == b.update(k, SavedMap { waypoints: waypoints, ..b[k] });
    assert(a[k].name == b[k].name);
    assert forall|i: int| #[trigger] is_first_named(a, name, i) implies a[i].waypoints
        == waypoints by {
        if i < k {
            assert(a[i] == b[i]);
        } else if i > k {
            assert(a[k].name@ == name);
        }
    }
    assert forall|i: int|
        0 <= i < a.len() && !is_first_named(b, name, i) implies #[trigger] a[i] == b[i] by {
        if i == k {
            assert(false);
        }
    }
}

} // verus!
