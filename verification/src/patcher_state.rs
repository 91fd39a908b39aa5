//! State shared by the patches of the script layers of the rooms.
use vstd::prelude::*;
use vstd::string::StringExecFns;
use crate::elevators::{
    SpawnRoomData, spec_destination_data, spec_destination_known, spec_room_counts_fit,
};
use crate::pickup_meta::RoomInfo;
use crate::world::{World, spec_first_world, spec_json_key_matches, spec_mlvl, spec_world_order, spec_world_str};

verus! {

/// The id the first script object that a patch adds gets.
pub const FIRST_FRESH_INSTANCE_ID: u32 = 0xDEAD_BABE;

/// State shared by the patches: the next script object id that no object of
/// the game uses.
pub struct PatcherState {
    next_instance_id: u32,
}

impl View for PatcherState {
    type V = u32;

    closed spec fn view(&self) -> u32 {
        self.next_instance_id
    }
}

impl PatcherState {
    /// The state before any patch ran.
    pub fn new() -> (r: PatcherState)
        ensures
            r@ == FIRST_FRESH_INSTANCE_ID,
    {
        PatcherState { next_instance_id: FIRST_FRESH_INSTANCE_ID }
    }

    /// A script object id that no object uses yet: each call gives the next
    /// one.
    pub fn fresh_instance_id(&mut self) -> (r: u32)
        requires
            old(self)@ < u32::MAX,
        ensures
            r == old(self)@,
            final(self)@ == old(self)@ + 1,
    {
        let id = self.next_instance_id;
        self.next_instance_id = id + 1;
        id
    }
}

/// Where a pickup is: its world's MLVL, its room's MREA and its index among
/// the room's pickups.
#[derive(Clone, Copy, Debug, PartialEq, Eq, Hash, Structural)]
pub struct PickupHashKey {
    pub level_id: u32,
    pub room_id: u32,
    pub pickup_idx: u32,
}


/// Whether `w` is the first world whose layout-file name `level_name`
/// matches.
pub open spec fn spec_level_world(level_name: Seq<char>, w: World) -> bool {
    spec_first_world(|v: World| spec_json_key_matches(level_name, v), w)
}

/// Whether some world's layout-file name `level_name` matches.
pub open spec fn spec_level_known(level_name: Seq<char>) -> bool {
    exists|i: int| 0 <= i < 7 && spec_json_key_matches(level_name, #[trigger] spec_world_order()[i])
}

/// The destination that names a room of a world: the world's name, a colon
/// and the room's name.
pub open spec fn spec_room_destination(w: World, room_name: Seq<char>) -> Seq<char> {
    spec_world_str(w) + ":"@ + room_name
}

/// Whether `r` is the key of pickup `pickup_idx` of room `room_name` of the
/// world `level_name` names: the world's MLVL, and the MREA of the room its
/// destination leads to.
pub open spec fn spec_location_key(
    level_name: Seq<char>,
    room_name: Seq<char>,
    pickup_idx: u32,
    table: Seq<(&'static str, &'static [RoomInfo])>,
    r: PickupHashKey,
) -> bool {
    exists|w: World, x: SpawnRoomData|
        #![trigger spec_level_world(level_name, w), spec_destination_data(spec_room_destination(w, room_name), table, x)]
        spec_level_world(level_name, w) && spec_destination_data(spec_room_destination(w, room_name), table, x)
            && r == PickupHashKey { level_id: spec_mlvl(w), room_id: x.mrea, pickup_idx }
}

/// Two worlds that both come first for the same test are the same world.
pub proof fn lemma_first_world_unique(p: spec_fn(World) -> bool, v: World, w: World)
    requires
        spec_first_world(p, v),
        spec_first_world(p, w),
    ensures
        v == w,
{
    let i = choose|i: int|
        0 <= i < 7 && spec_world_order()[i] == v && p(v) && forall|j: int|
            0 <= j < i ==> !p(#[trigger] spec_world_order()[j]);
    let k = choose|k: int|
        0 <= k < 7 && spec_world_order()[k] == w && p(w) && forall|j: int|
            0 <= j < k ==> !p(#[trigger] spec_world_order()[j]);
    if i < k {
        assert(!p(spec_world_order()[i]));
    } else if k < i {
        assert(!p(spec_world_order()[k]));
    }
}

impl PickupHashKey {
    /// The key of pickup `pickup_idx` of room `room_name` of the world whose
    /// layout-file name `level_name` matches, given the room list of the
    /// worlds; the world and the room must be known.
    pub fn from_location(
        level_name: &str,
        room_name: &str,
        pickup_idx: u32,
        table: &[(&'static str, &'static [RoomInfo])],
    ) -> (r: PickupHashKey)
        requires
            spec_room_counts_fit(table@),
            spec_level_known(level_name@),
            forall|w: World|
                #[trigger] spec_level_world(level_name@, w) ==> spec_destination_known(
                    spec_room_destination(w, room_name@),
                    table@,
                ),
        ensures
            spec_location_key(level_name@, room_name@, pickup_idx, table@, r),
    {
        let level = World::from_json_key(level_name);
        proof {
            assert(spec_level_world(level_name@, level));
        }
        let mut dest = String::from_str(level.to_str());
        dest.append(":");
        dest.append(room_name);
        let room = SpawnRoomData::from_str(dest.as_str(), table);
        let r = PickupHashKey { level_id: level.mlvl(), room_id: room.mrea, pickup_idx };
        proof {
            assert(spec_destination_data(spec_room_destination(level, room_name@), table@, room));
        }
        r
    }

    /// The key `from_location` gives, where the world and the room are
    /// known; `None` otherwise.
    pub fn try_from_location(
        level_name: &str,
        room_name: &str,
        pickup_idx: u32,
        table: &[(&'static str, &'static [RoomInfo])],
    ) -> (r: Option<PickupHashKey>)
        requires
            spec_room_counts_fit(table@),
        ensures
            r is Some <==> spec_level_known(level_name@) && forall|w: World|
                #[trigger] spec_level_world(level_name@, w) ==> spec_destination_known(
                    spec_room_destination(w, room_name@),
                    table@,
                ),
            r matches Some(k) ==> spec_location_key(level_name@, room_name@, pickup_idx, table@, k),
    {
        let level = match World::find_json_key(level_name) {
            Some(w) => w,
            None => {
                return None;
            },
        };
        proof {
            assert(spec_level_world(level_name@, level));
            assert forall|w: World| #[trigger] spec_level_world(level_name@, w) implies w == level by {
                lemma_first_world_unique(|v: World| spec_json_key_matches(level_name@, v), w, level);
            }
        }
        let mut dest = String::from_str(level.to_str());
        dest.append(":");
        dest.append(room_name);
        if SpawnRoomData::find_destination(dest.as_str(), table).is_none() {
            return None;
        }
        Some(Self::from_location(level_name, room_name, pickup_idx, table))
    }
}

} // verus!
