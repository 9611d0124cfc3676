//! Evaluating a condition against a layout.
use std::cmp::Ordering;
use vstd::prelude::*;

use crate::condition::{ConditionView, RoomType, SearchCondition};
use crate::layout::{Layout, LayoutView};
use crate::text::{eq_ignore_case, str_eq_ignore_case};

verus! {

/// Whether `count` relates to `amount` as `relationship` says.
pub open spec fn relates(count: nat, relationship: Ordering, amount: nat) -> bool {
    match relationship {
        Ordering::Less => count < amount,
        Ordering::Equal => count == amount,
        Ordering::Greater => count > amount,
    }
}

/// The number of names in `names` equal to `name`, ignoring ASCII case.
pub open spec fn entity_count(names: Seq<Seq<char>>, name: Seq<char>) -> nat
    decreases names.len(),
{
    if names.len() == 0 {
        0
    } else {
        entity_count(names.drop_last(), name) + if eq_ignore_case(names.last(), name) {
            1nat
        } else {
            0nat
        }
    }
}

/// The number of entries of `rooms` equal to `room_type`.
pub open spec fn room_count(rooms: Seq<RoomType>, room_type: RoomType) -> nat
    decreases rooms.len(),
{
    if rooms.len() == 0 {
        0
    } else {
        room_count(rooms.drop_last(), room_type) + if rooms.last() == room_type {
            1nat
        } else {
            0nat
        }
    }
}

/// Whether the layout modelled by `layout` satisfies the condition `c`.
pub open spec fn holds_on(c: ConditionView, layout: LayoutView) -> bool {
    match c {
        ConditionView::CountEntity { name, relationship, amount } => relates(
            entity_count(layout.entity_names, name),
            relationship,
            amount,
        ),
        ConditionView::CountRoomType { room_type, relationship, amount } => relates(
            room_count(layout.room_types, room_type),
            relationship,
            amount,
        ),
    }
}

fn compare(count: usize, relationship: Ordering, amount: usize) -> (r: bool)
    ensures
        r == relates(count as nat, relationship, amount as nat),
{
    match relationship {
        Ordering::Less => count < amount,
        Ordering::Equal => count == amount,
        Ordering::Greater => count > amount,
    }
}

fn count_entities(names: &Vec<String>, name: &String) -> (r: usize)
    ensures
        r as nat == entity_count(names@.map_values(|n: String| n@), name@),
{
    let ghost all = names@.map_values(|n: String| n@);
    let mut count: usize = 0;
    let mut i: usize = 0;
    while i < names.len()
        invariant
            i <= names@.len(),
            all == names@.map_values(|n: String| n@),
            count <= i,
            count as nat == entity_count(all.subrange(0, i as int), name@),
        decreases names@.len() - i,
    {
        assert(all.subrange(0, i + 1).drop_last() =~= all.subrange(0, i as int));
        if str_eq_ignore_case(names[i].as_str(), name.as_str()) {
            count = count + 1;
        }
        i = i + 1;
    }
    assert(all.subrange(0, i as int) =~= all);
    count
}

fn count_rooms(rooms: &Vec<RoomType>, room_type: RoomType) -> (r: usize)
    ensures
        r as nat == room_count(rooms@, room_type),
{
    let mut count: usize = 0;
    let mut i: usize = 0;
    while i < rooms.len()
        invariant
            i <= rooms@.len(),
            count <= i,
            count as nat == room_count(rooms@.subrange(0, i as int), room_type),
        decreases rooms@.len() - i,
    {
        assert(rooms@.subrange(0, i + 1).drop_last() =~= rooms@.subrange(0, i as int));
        if rooms[i] == room_type {
            count = count + 1;
        }
        i = i + 1;
    }
    assert(rooms@.subrange(0, i as int) =~= rooms@);
    count
}

impl SearchCondition {
    /// Whether `layout` satisfies this condition: the number of matching
    /// entities or map units relates to the amount as the relationship says.
    pub fn matches(&self, layout: &Layout) -> (r: bool)
        ensures
            r == holds_on(self@, layout@),
    {
        match self {
            SearchCondition::CountEntity { name, relationship, amount } => {
                let entity_count = count_entities(&layout.spawn_object_names, name);
                compare(entity_count, *relationship, *amount)
            },
            SearchCondition::CountRoomType { room_type, relationship, amount } => {
                let unit_count = count_rooms(&layout.map_unit_room_types, *room_type);
                compare(unit_count, *relationship, *amount)
            },
        }
    }
}

} // verus!
