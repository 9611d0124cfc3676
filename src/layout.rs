//! The read-only view of a generated layout that conditions are evaluated on.
use vstd::prelude::*;

use crate::condition::RoomType;

verus! {

/// The parts of a layout that conditions can ask about: the names of its
/// spawned entities and the room type of each of its map units.
pub struct Layout {
    pub spawn_object_names: Vec<String>,
    pub map_unit_room_types: Vec<RoomType>,
}

/// The model of a `Layout`.
pub struct LayoutView {
    pub entity_names: Seq<Seq<char>>,
    pub room_types: Seq<RoomType>,
}

impl View for Layout {
    type V = LayoutView;

    open spec fn view(&self) -> LayoutView {
        LayoutView {
            entity_names: self.spawn_object_names@.map_values(|n: String| n@),
            room_types: self.map_unit_room_types@,
        }
    }
}

impl Layout {
    pub fn new(spawn_object_names: Vec<String>, map_unit_room_types: Vec<RoomType>) -> (r: Layout)
        ensures
            r.spawn_object_names == spawn_object_names,
            r.map_unit_room_types == map_unit_room_types,
    {
        Layout { spawn_object_names, map_unit_room_types }
    }
}

} // verus!
