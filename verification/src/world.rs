//! The game's worlds.
use vstd::prelude::*;
use crate::text::{
    lemma_trim_word, spec_all_ascii, spec_key_code, spec_lowercase, spec_trim, str_eq, to_lowercase, trimmed_lower,
};

verus! {

/// A world of the game, each stored in a pak file of its own.
#[derive(Clone, Copy, Debug, PartialEq, Eq, Structural)]
pub enum World {
    FrigateOrpheon,
    TallonOverworld,
    ChozoRuins,
    MagmoorCaverns,
    PhendranaDrifts,
    PhazonMines,
    ImpactCrater,
}

/// The worlds in the order `World::iter` gives them.
pub open spec fn spec_world_order() -> Seq<World> {
    seq![World::FrigateOrpheon, World::ChozoRuins, World::PhendranaDrifts, World::TallonOverworld, World::PhazonMines, World::MagmoorCaverns, World::ImpactCrater]
}

/// The name of the pak file that holds the world.
pub open spec fn spec_pak_str(w: World) -> Seq<char> {
    match w {
        World::FrigateOrpheon => "Metroid1.pak"@,
        World::TallonOverworld => "Metroid4.pak"@,
        World::ChozoRuins => "Metroid2.pak"@,
        World::MagmoorCaverns => "Metroid6.pak"@,
        World::PhendranaDrifts => "Metroid3.pak"@,
        World::PhazonMines => "metroid5.pak"@,
        World::ImpactCrater => "Metroid7.pak"@,
    }
}

/// The id of the world's MLVL resource.
pub open spec fn spec_mlvl(w: World) -> u32 {
    match w {
        World::FrigateOrpheon => 0x158efe17,
        World::TallonOverworld => 0x39f2de28,
        World::ChozoRuins => 0x83f6ff6f,
        World::MagmoorCaverns => 0x3ef8237c,
        World::PhendranaDrifts => 0xa8be6291,
        World::PhazonMines => 0xb1ac4d65,
        World::ImpactCrater => 0xc13b09d1,
    }
}

/// The world's name as the game's world list writes it.
pub open spec fn spec_world_str(w: World) -> Seq<char> {
    match w {
        World::FrigateOrpheon => "Frigate Orpheon"@,
        World::TallonOverworld => "Tallon Overworld"@,
        World::ChozoRuins => "Chozo Ruins"@,
        World::MagmoorCaverns => "Magmoor Caverns"@,
        World::PhendranaDrifts => "Phendrana Drifts"@,
        World::PhazonMines => "Mines, Phazon"@,
        World::ImpactCrater => "Crater, Impact"@,
    }
}

/// The world's name as a layout file writes it.
pub open spec fn spec_json_key(w: World) -> Seq<char> {
    match w {
        World::FrigateOrpheon => "Frigate Orpheon"@,
        World::TallonOverworld => "Tallon Overworld"@,
        World::ChozoRuins => "Chozo Ruins"@,
        World::MagmoorCaverns => "Magmoor Caverns"@,
        World::PhendranaDrifts => "Phendrana Drifts"@,
        World::PhazonMines => "Phazon Mines"@,
        World::ImpactCrater => "Impact Crater"@,
    }
}

/// Whether `w` comes first, in `World::iter` order, among the worlds for
/// which `p` holds.
pub open spec fn spec_first_world(p: spec_fn(World) -> bool, w: World) -> bool {
    exists|i: int|
        0 <= i < 7 && spec_world_order()[i] == w && p(w) && forall|j: int|
            0 <= j < i ==> !p(#[trigger] spec_world_order()[j])
}

/// Whether `string`, trimmed and in lowercase, is the lowercase of the
/// world's layout-file name.
pub open spec fn spec_json_key_matches(string: Seq<char>, w: World) -> bool {
    spec_lowercase(spec_trim(string)) == spec_lowercase(spec_json_key(w))
}

impl World {
    /// Every world, in the order of their pak files' numbers.
    pub fn iter() -> (r: Vec<World>)
        ensures
            r@ == spec_world_order(),
    {
        let r = vec![World::FrigateOrpheon, World::ChozoRuins, World::PhendranaDrifts, World::TallonOverworld, World::PhazonMines, World::MagmoorCaverns, World::ImpactCrater];
        assert(r@ =~= spec_world_order());
        r
    }

    /// The name of the pak file that holds the world.
    pub fn to_pak_str(&self) -> (r: &'static str)
        ensures
            r@ == spec_pak_str(*self),
    {
        match self {
            World::FrigateOrpheon => "Metroid1.pak",
            World::TallonOverworld => "Metroid4.pak",
            World::ChozoRuins => "Metroid2.pak",
            World::MagmoorCaverns => "Metroid6.pak",
            World::PhendranaDrifts => "Metroid3.pak",
            World::PhazonMines => "metroid5.pak",
            World::ImpactCrater => "Metroid7.pak",
        }
    }

    /// The world whose pak file has this name, the first in `iter` order.
    pub fn from_pak(pak_str: &str) -> (r: Option<World>)
        ensures
            match r {
                Some(w) => spec_first_world(|w: World| pak_str@ == spec_pak_str(w), w),
                None => forall|i: int| 0 <= i < 7 ==> pak_str@ != spec_pak_str(#[trigger] spec_world_order()[i]),
            },
    {
        let worlds = World::iter();
        let mut i: usize = 0;
        while i < worlds.len()
            invariant
                0 <= i <= 7,
                worlds@ == spec_world_order(),
                forall|j: int| 0 <= j < i ==> pak_str@ != spec_pak_str(#[trigger] spec_world_order()[j]),
            decreases 7 - i,
        {
            let w = worlds[i];
            if str_eq(pak_str, w.to_pak_str()) {
                assert(spec_world_order()[i as int] == w);
                return Some(w);
            }
            i = i + 1;
        }
        None
    }

    /// The id of the world's MLVL resource.
    pub fn mlvl(&self) -> (r: u32)
        ensures
            r == spec_mlvl(*self),
    {
        match self {
            World::FrigateOrpheon => 0x158efe17,
            World::TallonOverworld => 0x39f2de28,
            World::ChozoRuins => 0x83f6ff6f,
            World::MagmoorCaverns => 0x3ef8237c,
            World::PhendranaDrifts => 0xa8be6291,
            World::PhazonMines => 0xb1ac4d65,
            World::ImpactCrater => 0xc13b09d1,
        }
    }

    /// The world's name as the game's world list writes it.
    pub fn to_str(&self) -> (r: &'static str)
        ensures
            r@ == spec_world_str(*self),
    {
        match self {
            World::FrigateOrpheon => "Frigate Orpheon",
            World::TallonOverworld => "Tallon Overworld",
            World::ChozoRuins => "Chozo Ruins",
            World::MagmoorCaverns => "Magmoor Caverns",
            World::PhendranaDrifts => "Phendrana Drifts",
            World::PhazonMines => "Mines, Phazon",
            World::ImpactCrater => "Crater, Impact",
        }
    }

    /// The world's name as a layout file writes it.
    pub fn to_json_key(&self) -> (r: &'static str)
        ensures
            r@ == spec_json_key(*self),
    {
        match self {
            World::FrigateOrpheon => "Frigate Orpheon",
            World::TallonOverworld => "Tallon Overworld",
            World::ChozoRuins => "Chozo Ruins",
            World::MagmoorCaverns => "Magmoor Caverns",
            World::PhendranaDrifts => "Phendrana Drifts",
            World::PhazonMines => "Phazon Mines",
            World::ImpactCrater => "Impact Crater",
        }
    }

    /// The first world, in `iter` order, whose layout-file name matches
    /// `string` without regard to case and surrounding whitespace; there must
    /// be one.
    pub fn from_json_key(string: &str) -> (r: World)
        requires
            exists|i: int| 0 <= i < 7 && spec_json_key_matches(string@, #[trigger] spec_world_order()[i]),
        ensures
            spec_first_world(|w: World| spec_json_key_matches(string@, w), r),
    {
        let key = trimmed_lower(string);
        let worlds = World::iter();
        let mut i: usize = 0;
        while i < worlds.len()
            invariant
                0 <= i <= 7,
                worlds@ == spec_world_order(),
                key@ == spec_lowercase(spec_trim(string@)),
                forall|j: int| 0 <= j < i ==> !spec_json_key_matches(string@, #[trigger] spec_world_order()[j]),
            decreases 7 - i,
        {
            let w = worlds[i];
            let candidate = to_lowercase(w.to_json_key());
            if str_eq(key.as_str(), candidate.as_str()) {
                assert(spec_world_order()[i as int] == w);
                return w;
            }
            i = i + 1;
        }
        proof {
            let k = choose|k: int| 0 <= k < 7 && spec_json_key_matches(string@, #[trigger] spec_world_order()[k]);
            assert(!spec_json_key_matches(string@, spec_world_order()[k]));
        }
        World::FrigateOrpheon
    }

    /// The world `from_json_key` gives for `string`, where one matches.
    pub fn find_json_key(string: &str) -> (r: Option<World>)
        ensures
            match r {
                Some(w) => spec_first_world(|w: World| spec_json_key_matches(string@, w), w),
                None => forall|i: int| 0 <= i < 7 ==> !spec_json_key_matches(string@, #[trigger] spec_world_order()[i]),
            },
    {
        let key = trimmed_lower(string);
        let worlds = World::iter();
        let mut i: usize = 0;
        while i < worlds.len()
            invariant
                0 <= i <= 7,
                worlds@ == spec_world_order(),
                key@ == spec_lowercase(spec_trim(string@)),
                forall|j: int| 0 <= j < i ==> !spec_json_key_matches(string@, #[trigger] spec_world_order()[j]),
            decreases 7 - i,
        {
            let w = worlds[i];
            let candidate = to_lowercase(w.to_json_key());
            if str_eq(key.as_str(), candidate.as_str()) {
                assert(spec_json_key_matches(string@, spec_world_order()[i as int]));
                return Some(World::from_json_key(string));
            }
            i = i + 1;
        }
        None
    }
}


/// The key code of each world's layout-file name in lowercase.
pub open spec fn spec_world_code(w: World) -> int {
    match w {
        World::FrigateOrpheon => 1009518,
        World::ChozoRuins => 752243,
        World::PhendranaDrifts => 1076851,
        World::TallonOverworld => 1076324,
        World::PhazonMines => 817779,
        World::MagmoorCaverns => 1011059,
        World::ImpactCrater => 876914,
    }
}

/// The world with a key code.
pub open spec fn spec_world_of_code(c: int) -> World {
    if c == 1009518 {
        World::FrigateOrpheon
    } else     if c == 752243 {
        World::ChozoRuins
    } else     if c == 1076851 {
        World::PhendranaDrifts
    } else     if c == 1076324 {
        World::TallonOverworld
    } else     if c == 817779 {
        World::PhazonMines
    } else     if c == 1011059 {
        World::MagmoorCaverns
    } else {
        World::ImpactCrater
    }
}

/// A world's place in `iter` order.
pub open spec fn spec_world_index(w: World) -> int {
    match w {
        World::FrigateOrpheon => 0,
        World::ChozoRuins => 1,
        World::PhendranaDrifts => 2,
        World::TallonOverworld => 3,
        World::PhazonMines => 4,
        World::MagmoorCaverns => 5,
        World::ImpactCrater => 6,
    }
}

/// A world's layout-file name is ASCII, starts and ends with no whitespace,
/// and in lowercase has the world's code.
proof fn lemma_world_key_code(w: World)
    ensures
        spec_all_ascii(spec_json_key(w)),
        spec_trim(spec_json_key(w)) == spec_json_key(w),
        spec_key_code(spec_lowercase(spec_json_key(w))) == spec_world_code(w),
        spec_world_of_code(spec_world_code(w)) == w,
{
    match w {
        World::FrigateOrpheon => {
            reveal_strlit("Frigate Orpheon");
        },
        World::ChozoRuins => {
            reveal_strlit("Chozo Ruins");
        },
        World::PhendranaDrifts => {
            reveal_strlit("Phendrana Drifts");
        },
        World::TallonOverworld => {
            reveal_strlit("Tallon Overworld");
        },
        World::PhazonMines => {
            reveal_strlit("Phazon Mines");
        },
        World::MagmoorCaverns => {
            reveal_strlit("Magmoor Caverns");
        },
        World::ImpactCrater => {
            reveal_strlit("Impact Crater");
        },
    }
    lemma_trim_word(spec_json_key(w));
}

/// Each world stands in `iter` order at its index.
pub proof fn lemma_world_order(w: World)
    ensures
        0 <= spec_world_index(w) < 7,
        spec_world_order()[spec_world_index(w)] == w,
        forall|j: int| 0 <= j < 7 ==> spec_world_index(#[trigger] spec_world_order()[j]) == j,
{
    assert forall|j: int| 0 <= j < 7 implies spec_world_index(#[trigger] spec_world_order()[j]) == j by {
        if j == 0 {} else if j == 1 {} else if j == 2 {} else if j == 3 {} else if j == 4 {} else if j == 5 {} else {}
    }
}

/// A string matches the layout-file name of one world only, and
/// `from_json_key` gives that world.
pub proof fn lemma_json_key_found(s: Seq<char>, w: World)
    requires
        spec_json_key_matches(s, w),
    ensures
        spec_first_world(|v: World| spec_json_key_matches(s, v), w),
        forall|v: World| #[trigger] spec_json_key_matches(s, v) ==> v == w,
{
    lemma_world_order(w);
    lemma_world_key_code(w);
    assert forall|v: World| #[trigger] spec_json_key_matches(s, v) implies v == w by {
        lemma_world_key_code(v);
    }
    let i = spec_world_index(w);
    assert forall|j: int| 0 <= j < i implies !spec_json_key_matches(s, #[trigger] spec_world_order()[j]) by {
        if spec_json_key_matches(s, spec_world_order()[j]) {
            lemma_world_key_code(spec_world_order()[j]);
        }
    }
    assert(spec_world_order()[i] == w);
}

/// A world's layout-file name leads back to the world:
/// `from_json_key(w.to_json_key())` is `w`.
pub proof fn lemma_json_key_round_trip(w: World)
    ensures
        spec_first_world(|v: World| spec_json_key_matches(spec_json_key(w), v), w),
{
    lemma_world_key_code(w);
    lemma_json_key_found(spec_json_key(w), w);
}


/// No two worlds share an MLVL id.
pub proof fn lemma_mlvl_distinct(w1: World, w2: World)
    requires
        w1 != w2,
    ensures
        spec_mlvl(w1) != spec_mlvl(w2),
{
}

} // verus!
