//! The elevators between the worlds and the rooms a game can start in.
use vstd::prelude::*;
use crate::pickup_meta::RoomInfo;
use crate::text::{
    chars_eq, spec_all_ascii, spec_ascii_lower_char, spec_ascii_lowercase, spec_is_whitespace, spec_lowercase, spec_squeeze, spec_starts_with, spec_trim, squeeze, str_eq, str_starts_with,
    to_lowercase, trim,
};
use crate::world::{spec_first_world, spec_mlvl, spec_pak_str, spec_world_index, spec_world_order, spec_world_str, World};

verus! {

/// An elevator of the game.
#[derive(Clone, Copy, Debug, PartialEq, Eq, Hash, Structural)]
pub enum Elevator {
    ChozoRuinsWestMainPlaza,
    ChozoRuinsNorthSunTower,
    ChozoRuinsEastReflectingPoolSaveStation,
    ChozoRuinsSouthReflectingPoolFarEnd,
    PhendranaDriftsNorthPhendranaShorelines,
    PhendranaDriftsSouthQuarantineCave,
    TallonOverworldNorthTallonCanyon,
    ArtifactTemple,
    TallonOverworldEastFrigateCrashSite,
    TallonOverworldWestRootCave,
    TallonOverworldSouthGreatTreeHallUpper,
    TallonOverworldSouthGreatTreeHallLower,
    PhazonMinesEastMainQuarry,
    PhazonMinesWestPhazonProcessingCenter,
    MagmoorCavernsNorthLavaLake,
    MagmoorCavernsWestMonitorStation,
    MagmoorCavernsEastTwinFires,
    MagmoorCavernsSouthMagmoorWorkstationDebris,
    MagmoorCavernsSouthMagmoorWorkstationSaveStation,
    CraterEntryPoint,
}

/// What the patcher knows of an elevator: where it is and the strings and
/// destination it has in the unpatched game.
#[derive(Clone, Copy, Debug)]
pub struct ElevatorData {
    pub pak_name: &'static str,
    pub name: &'static str,
    pub mlvl: u32,
    pub mrea: u32,
    pub mrea_idx: u32,
    pub scly_id: u32,
    pub room_id: u32,
    pub room_strg: u32,
    pub hologram_strg: u32,
    pub control_strg: u32,
    pub default_dest: Elevator,
}

/// The elevators in the order `Elevator::iter` gives them; an elevator's
/// number is its place in it.
pub open spec fn spec_elevators() -> Seq<Elevator> {
    seq![
        Elevator::ChozoRuinsWestMainPlaza,
        Elevator::ChozoRuinsNorthSunTower,
        Elevator::ChozoRuinsEastReflectingPoolSaveStation,
        Elevator::ChozoRuinsSouthReflectingPoolFarEnd,
        Elevator::PhendranaDriftsNorthPhendranaShorelines,
        Elevator::PhendranaDriftsSouthQuarantineCave,
        Elevator::TallonOverworldNorthTallonCanyon,
        Elevator::ArtifactTemple,
        Elevator::TallonOverworldEastFrigateCrashSite,
        Elevator::TallonOverworldWestRootCave,
        Elevator::TallonOverworldSouthGreatTreeHallUpper,
        Elevator::TallonOverworldSouthGreatTreeHallLower,
        Elevator::PhazonMinesEastMainQuarry,
        Elevator::PhazonMinesWestPhazonProcessingCenter,
        Elevator::MagmoorCavernsNorthLavaLake,
        Elevator::MagmoorCavernsWestMonitorStation,
        Elevator::MagmoorCavernsEastTwinFires,
        Elevator::MagmoorCavernsSouthMagmoorWorkstationDebris,
        Elevator::MagmoorCavernsSouthMagmoorWorkstationSaveStation,
        Elevator::CraterEntryPoint,
    ]
}

/// The pak file of the elevator's world.
pub open spec fn spec_elevator_pak_name(e: Elevator) -> Seq<char> {
    match e {
        Elevator::ChozoRuinsWestMainPlaza => "Metroid2.pak"@,
        Elevator::ChozoRuinsNorthSunTower => "Metroid2.pak"@,
        Elevator::ChozoRuinsEastReflectingPoolSaveStation => "Metroid2.pak"@,
        Elevator::ChozoRuinsSouthReflectingPoolFarEnd => "Metroid2.pak"@,
        Elevator::PhendranaDriftsNorthPhendranaShorelines => "Metroid3.pak"@,
        Elevator::PhendranaDriftsSouthQuarantineCave => "Metroid3.pak"@,
        Elevator::TallonOverworldNorthTallonCanyon => "Metroid4.pak"@,
        Elevator::ArtifactTemple => "Metroid4.pak"@,
        Elevator::TallonOverworldEastFrigateCrashSite => "Metroid4.pak"@,
        Elevator::TallonOverworldWestRootCave => "Metroid4.pak"@,
        Elevator::TallonOverworldSouthGreatTreeHallUpper => "Metroid4.pak"@,
        Elevator::TallonOverworldSouthGreatTreeHallLower => "Metroid4.pak"@,
        Elevator::PhazonMinesEastMainQuarry => "metroid5.pak"@,
        Elevator::PhazonMinesWestPhazonProcessingCenter => "metroid5.pak"@,
        Elevator::MagmoorCavernsNorthLavaLake => "Metroid6.pak"@,
        Elevator::MagmoorCavernsWestMonitorStation => "Metroid6.pak"@,
        Elevator::MagmoorCavernsEastTwinFires => "Metroid6.pak"@,
        Elevator::MagmoorCavernsSouthMagmoorWorkstationDebris => "Metroid6.pak"@,
        Elevator::MagmoorCavernsSouthMagmoorWorkstationSaveStation => "Metroid6.pak"@,
        Elevator::CraterEntryPoint => "Metroid7.pak"@,
    }
}

/// The elevator's name; a NUL separates the world from the room.
pub open spec fn spec_elevator_name(e: Elevator) -> Seq<char> {
    match e {
        Elevator::ChozoRuinsWestMainPlaza => "Chozo Ruins West\0(Main Plaza)"@,
        Elevator::ChozoRuinsNorthSunTower => "Chozo Ruins North\0(Sun Tower)"@,
        Elevator::ChozoRuinsEastReflectingPoolSaveStation => "Chozo Ruins East\0(Reflecting Pool, Save Station)"@,
        Elevator::ChozoRuinsSouthReflectingPoolFarEnd => "Chozo Ruins South\0(Reflecting Pool, Far End)"@,
        Elevator::PhendranaDriftsNorthPhendranaShorelines => "Phendrana Drifts North\0(Phendrana Shorelines)"@,
        Elevator::PhendranaDriftsSouthQuarantineCave => "Phendrana Drifts South\0(Quarantine Cave)"@,
        Elevator::TallonOverworldNorthTallonCanyon => "Tallon Overworld North\0(Tallon Canyon)"@,
        Elevator::ArtifactTemple => "Artifact Temple"@,
        Elevator::TallonOverworldEastFrigateCrashSite => "Tallon Overworld East\0(Frigate Crash Site)"@,
        Elevator::TallonOverworldWestRootCave => "Tallon Overworld West\0(Root Cave)"@,
        Elevator::TallonOverworldSouthGreatTreeHallUpper => "Tallon Overworld South\0(Great Tree Hall, Upper)"@,
        Elevator::TallonOverworldSouthGreatTreeHallLower => "Tallon Overworld South\0(Great Tree Hall, Lower)"@,
        Elevator::PhazonMinesEastMainQuarry => "Phazon Mines East\0(Main Quarry)"@,
        Elevator::PhazonMinesWestPhazonProcessingCenter => "Phazon Mines West\0(Phazon Processing Center)"@,
        Elevator::MagmoorCavernsNorthLavaLake => "Magmoor Caverns North\0(Lava Lake)"@,
        Elevator::MagmoorCavernsWestMonitorStation => "Magmoor Caverns West\0(Monitor Station)"@,
        Elevator::MagmoorCavernsEastTwinFires => "Magmoor Caverns East\0(Twin Fires)"@,
        Elevator::MagmoorCavernsSouthMagmoorWorkstationDebris => "Magmoor Caverns South\0(Magmoor Workstation, Debris)"@,
        Elevator::MagmoorCavernsSouthMagmoorWorkstationSaveStation => "Magmoor Caverns South\0(Magmoor Workstation, Save Station)"@,
        Elevator::CraterEntryPoint => "Crater Entry Point"@,
    }
}

/// The elevator's ids: MLVL, MREA, room index, script object, room, room
/// name string, hologram string and control string.
pub open spec fn spec_elevator_ids(e: Elevator) -> (u32, u32, u32, u32, u32, u32, u32, u32) {
    match e {
        Elevator::ChozoRuinsWestMainPlaza => (0x83f6ff6f, 0x3e6b2bb7, 0, 0x007d, 0xDBED08BA, 0xF747143D, 0xD3F29D19, 0x3C6FF426),
        Elevator::ChozoRuinsNorthSunTower => (0x83f6ff6f, 0x8316edf5, 24, 0x180027, 0x372F1027, 0x71D36693, 0xB4B44968, 0xC610DFE6),
        Elevator::ChozoRuinsEastReflectingPoolSaveStation => (0x83f6ff6f, 0xa5fa69a1, 62, 0x3e002c, 0xC705A398, 0x1CE1DDBC, 0x598EF87A, 0xFCD69EB0),
        Elevator::ChozoRuinsSouthReflectingPoolFarEnd => (0x83f6ff6f, 0x236e1b0f, 63, 0x3f0028, 0x23F35FE1, 0x9A75AF12, 0x48F39203, 0x411CF27E),
        Elevator::PhendranaDriftsNorthPhendranaShorelines => (0xa8be6291, 0xc00e3781, 0, 0x002d, 0xB2E861AC, 0xF7D14F4D, 0x38F9BAC5, 0x2DDB22E1),
        Elevator::PhendranaDriftsSouthQuarantineCave => (0xa8be6291, 0xdd0b0739, 29, 0x1d005a, 0x31D08ACB, 0xEAD47FF5, 0x0CEE0B66, 0x993CEFE8),
        Elevator::TallonOverworldNorthTallonCanyon => (0x39f2de28, 0x11a02448, 14, 0xe0005, 0x6FD3B9AB, 0x9EE2172A, 0x04685AE9, 0x73A833EB),
        Elevator::ArtifactTemple => (0x39f2de28, 0x2398e906, 16, 0x1002da, 0xCD2B0EA2, 0xFFFFFFFF, 0xFFFFFFFF, 0xFFFFFFFF),
        Elevator::TallonOverworldEastFrigateCrashSite => (0x39f2de28, 0x8a31665e, 22, 0x160038, 0xB0C789B5, 0x0573553C, 0x55A27CA9, 0x51DCA8D9),
        Elevator::TallonOverworldWestRootCave => (0x39f2de28, 0x15d6ff8b, 23, 0x170032, 0x6D105C48, 0xF92C2264, 0xD658ADBD, 0x8EA61E34),
        Elevator::TallonOverworldSouthGreatTreeHallUpper => (0x39f2de28, 0xca514f0, 41, 0x290024, 0x5301E9D, 0x630EA5FC, 0xCC401AA8, 0xEC16C417),
        Elevator::TallonOverworldSouthGreatTreeHallLower => (0x39f2de28, 0x7d106670, 43, 0x2b0023, 0xBC2A964C, 0xF2525512, 0x4921B661, 0x294EC2B2),
        Elevator::PhazonMinesEastMainQuarry => (0xb1ac4d65, 0x430e999c, 0, 0x001c, 0x2AC6EC36, 0x8D7B16B4, 0xB60F6ADF, 0xA00EF446),
        Elevator::PhazonMinesWestPhazonProcessingCenter => (0xb1ac4d65, 0xe2c2cf38, 25, 0x190011, 0x91C144BF, 0x47C4108D, 0xDFD2AE6D, 0x1D8BB16C),
        Elevator::MagmoorCavernsNorthLavaLake => (0x3ef8237c, 0x3beaadc9, 0, 0x001f, 0x7DC0D75B, 0x1BEFC19B, 0x8EA3FD98, 0x0D3EC7DC),
        Elevator::MagmoorCavernsWestMonitorStation => (0x3ef8237c, 0xdca9a28b, 13, 0xd0022, 0x4318F156, 0xE0E1C4DA, 0x4F2D2258, 0xD0A81E59),
        Elevator::MagmoorCavernsEastTwinFires => (0x3ef8237c, 0x4c3d244c, 16, 0x100020, 0xB3128CF6, 0xBD4E14B9, 0x58DA42EA, 0x4BE9A4CC),
        Elevator::MagmoorCavernsSouthMagmoorWorkstationDebris => (0x3ef8237c, 0xef2f1440, 26, 0x1a0024, 0x921FFEDB, 0xFF5F6594, 0x28E3D615, 0x2FAF7EDA),
        Elevator::MagmoorCavernsSouthMagmoorWorkstationSaveStation => (0x3ef8237c, 0xc1ac9233, 27, 0x1b0028, 0xC0201A31, 0x66DEBE97, 0x61805AFF, 0x6F30E3D4),
        Elevator::CraterEntryPoint => (0xc13b09d1, 0x93668996, 0, 0x0098, 0x2B878F78, 0xFFFFFFFF, 0xFFFFFFFF, 0xFFFFFFFF),
    }
}

/// Where the elevator leads in the unpatched game.
pub open spec fn spec_default_dest(e: Elevator) -> Elevator {
    match e {
        Elevator::ChozoRuinsWestMainPlaza => Elevator::TallonOverworldNorthTallonCanyon,
        Elevator::ChozoRuinsNorthSunTower => Elevator::MagmoorCavernsNorthLavaLake,
        Elevator::ChozoRuinsEastReflectingPoolSaveStation => Elevator::TallonOverworldEastFrigateCrashSite,
        Elevator::ChozoRuinsSouthReflectingPoolFarEnd => Elevator::TallonOverworldSouthGreatTreeHallUpper,
        Elevator::PhendranaDriftsNorthPhendranaShorelines => Elevator::MagmoorCavernsWestMonitorStation,
        Elevator::PhendranaDriftsSouthQuarantineCave => Elevator::MagmoorCavernsSouthMagmoorWorkstationSaveStation,
        Elevator::TallonOverworldNorthTallonCanyon => Elevator::ChozoRuinsWestMainPlaza,
        Elevator::ArtifactTemple => Elevator::CraterEntryPoint,
        Elevator::TallonOverworldEastFrigateCrashSite => Elevator::ChozoRuinsEastReflectingPoolSaveStation,
        Elevator::TallonOverworldWestRootCave => Elevator::MagmoorCavernsEastTwinFires,
        Elevator::TallonOverworldSouthGreatTreeHallUpper => Elevator::ChozoRuinsSouthReflectingPoolFarEnd,
        Elevator::TallonOverworldSouthGreatTreeHallLower => Elevator::PhazonMinesEastMainQuarry,
        Elevator::PhazonMinesEastMainQuarry => Elevator::TallonOverworldSouthGreatTreeHallLower,
        Elevator::PhazonMinesWestPhazonProcessingCenter => Elevator::MagmoorCavernsSouthMagmoorWorkstationDebris,
        Elevator::MagmoorCavernsNorthLavaLake => Elevator::ChozoRuinsNorthSunTower,
        Elevator::MagmoorCavernsWestMonitorStation => Elevator::PhendranaDriftsNorthPhendranaShorelines,
        Elevator::MagmoorCavernsEastTwinFires => Elevator::TallonOverworldWestRootCave,
        Elevator::MagmoorCavernsSouthMagmoorWorkstationDebris => Elevator::PhazonMinesWestPhazonProcessingCenter,
        Elevator::MagmoorCavernsSouthMagmoorWorkstationSaveStation => Elevator::PhendranaDriftsSouthQuarantineCave,
        Elevator::CraterEntryPoint => Elevator::ArtifactTemple,
    }
}

/// The elevator's data is what the spec functions above say.
pub open spec fn spec_is_elevator_data(e: Elevator, d: ElevatorData) -> bool {
    &&& d.pak_name@ == spec_elevator_pak_name(e)
    &&& d.name@ == spec_elevator_name(e)
    &&& (d.mlvl, d.mrea, d.mrea_idx, d.scly_id, d.room_id, d.room_strg, d.hologram_strg, d.control_strg)
        == spec_elevator_ids(e)
    &&& d.default_dest == spec_default_dest(e)
}

/// Whether `name` names elevator `e`: in lowercase and without NULs and
/// whitespace both are the same.
pub open spec fn spec_elevator_name_matches(name: Seq<char>, e: Elevator) -> bool {
    spec_squeeze(spec_lowercase(spec_elevator_name(e))) == spec_squeeze(spec_lowercase(name))
}

impl Elevator {
    /// The elevator's data.
    pub fn elevator_data(&self) -> (r: ElevatorData)
        ensures
            spec_is_elevator_data(*self, r),
    {
        match self {
            Elevator::ChozoRuinsWestMainPlaza => ElevatorData {
                pak_name: "Metroid2.pak",
                name: "Chozo Ruins West\0(Main Plaza)",
                mlvl: 0x83f6ff6f,
                mrea: 0x3e6b2bb7,
                mrea_idx: 0,
                scly_id: 0x007d,
                room_id: 0xDBED08BA,
                room_strg: 0xF747143D,
                hologram_strg: 0xD3F29D19,
                control_strg: 0x3C6FF426,
                default_dest: Elevator::TallonOverworldNorthTallonCanyon,
            },
            Elevator::ChozoRuinsNorthSunTower => ElevatorData {
                pak_name: "Metroid2.pak",
                name: "Chozo Ruins North\0(Sun Tower)",
                mlvl: 0x83f6ff6f,
                mrea: 0x8316edf5,
                mrea_idx: 24,
                scly_id: 0x180027,
                room_id: 0x372F1027,
                room_strg: 0x71D36693,
                hologram_strg: 0xB4B44968,
                control_strg: 0xC610DFE6,
                default_dest: Elevator::MagmoorCavernsNorthLavaLake,
            },
            Elevator::ChozoRuinsEastReflectingPoolSaveStation => ElevatorData {
                pak_name: "Metroid2.pak",
                name: "Chozo Ruins East\0(Reflecting Pool, Save Station)",
                mlvl: 0x83f6ff6f,
                mrea: 0xa5fa69a1,
                mrea_idx: 62,
                scly_id: 0x3e002c,
                room_id: 0xC705A398,
                room_strg: 0x1CE1DDBC,
                hologram_strg: 0x598EF87A,
                control_strg: 0xFCD69EB0,
                default_dest: Elevator::TallonOverworldEastFrigateCrashSite,
            },
            Elevator::ChozoRuinsSouthReflectingPoolFarEnd => ElevatorData {
                pak_name: "Metroid2.pak",
                name: "Chozo Ruins South\0(Reflecting Pool, Far End)",
                mlvl: 0x83f6ff6f,
                mrea: 0x236e1b0f,
                mrea_idx: 63,
                scly_id: 0x3f0028,
                room_id: 0x23F35FE1,
                room_strg: 0x9A75AF12,
                hologram_strg: 0x48F39203,
                control_strg: 0x411CF27E,
                default_dest: Elevator::TallonOverworldSouthGreatTreeHallUpper,
            },
            Elevator::PhendranaDriftsNorthPhendranaShorelines => ElevatorData {
                pak_name: "Metroid3.pak",
                name: "Phendrana Drifts North\0(Phendrana Shorelines)",
                mlvl: 0xa8be6291,
                mrea: 0xc00e3781,
                mrea_idx: 0,
                scly_id: 0x002d,
                room_id: 0xB2E861AC,
                room_strg: 0xF7D14F4D,
                hologram_strg: 0x38F9BAC5,
                control_strg: 0x2DDB22E1,
                default_dest: Elevator::MagmoorCavernsWestMonitorStation,
            },
            Elevator::PhendranaDriftsSouthQuarantineCave => ElevatorData {
                pak_name: "Metroid3.pak",
                name: "Phendrana Drifts South\0(Quarantine Cave)",
                mlvl: 0xa8be6291,
                mrea: 0xdd0b0739,
                mrea_idx: 29,
                scly_id: 0x1d005a,
                room_id: 0x31D08ACB,
                room_strg: 0xEAD47FF5,
                hologram_strg: 0x0CEE0B66,
                control_strg: 0x993CEFE8,
                default_dest: Elevator::MagmoorCavernsSouthMagmoorWorkstationSaveStation,
            },
            Elevator::TallonOverworldNorthTallonCanyon => ElevatorData {
                pak_name: "Metroid4.pak",
                name: "Tallon Overworld North\0(Tallon Canyon)",
                mlvl: 0x39f2de28,
                mrea: 0x11a02448,
                mrea_idx: 14,
                scly_id: 0xe0005,
                room_id: 0x6FD3B9AB,
                room_strg: 0x9EE2172A,
                hologram_strg: 0x04685AE9,
                control_strg: 0x73A833EB,
                default_dest: Elevator::ChozoRuinsWestMainPlaza,
            },
            Elevator::ArtifactTemple => ElevatorData {
                pak_name: "Metroid4.pak",
                name: "Artifact Temple",
                mlvl: 0x39f2de28,
                mrea: 0x2398e906,
                mrea_idx: 16,
                scly_id: 0x1002da,
                room_id: 0xCD2B0EA2,
                room_strg: 0xFFFFFFFF,
                hologram_strg: 0xFFFFFFFF,
                control_strg: 0xFFFFFFFF,
                default_dest: Elevator::CraterEntryPoint,
            },
            Elevator::TallonOverworldEastFrigateCrashSite => ElevatorData {
                pak_name: "Metroid4.pak",
                name: "Tallon Overworld East\0(Frigate Crash Site)",
                mlvl: 0x39f2de28,
                mrea: 0x8a31665e,
                mrea_idx: 22,
                scly_id: 0x160038,
                room_id: 0xB0C789B5,
                room_strg: 0x0573553C,
                hologram_strg: 0x55A27CA9,
                control_strg: 0x51DCA8D9,
                default_dest: Elevator::ChozoRuinsEastReflectingPoolSaveStation,
            },
            Elevator::TallonOverworldWestRootCave => ElevatorData {
                pak_name: "Metroid4.pak",
                name: "Tallon Overworld West\0(Root Cave)",
                mlvl: 0x39f2de28,
                mrea: 0x15d6ff8b,
                mrea_idx: 23,
                scly_id: 0x170032,
                room_id: 0x6D105C48,
                room_strg: 0xF92C2264,
                hologram_strg: 0xD658ADBD,
                control_strg: 0x8EA61E34,
                default_dest: Elevator::MagmoorCavernsEastTwinFires,
            },
            Elevator::TallonOverworldSouthGreatTreeHallUpper => ElevatorData {
                pak_name: "Metroid4.pak",
                name: "Tallon Overworld South\0(Great Tree Hall, Upper)",
                mlvl: 0x39f2de28,
                mrea: 0xca514f0,
                mrea_idx: 41,
                scly_id: 0x290024,
                room_id: 0x5301E9D,
                room_strg: 0x630EA5FC,
                hologram_strg: 0xCC401AA8,
                control_strg: 0xEC16C417,
                default_dest: Elevator::ChozoRuinsSouthReflectingPoolFarEnd,
            },
            Elevator::TallonOverworldSouthGreatTreeHallLower => ElevatorData {
                pak_name: "Metroid4.pak",
                name: "Tallon Overworld South\0(Great Tree Hall, Lower)",
                mlvl: 0x39f2de28,
                mrea: 0x7d106670,
                mrea_idx: 43,
                scly_id: 0x2b0023,
                room_id: 0xBC2A964C,
                room_strg: 0xF2525512,
                hologram_strg: 0x4921B661,
                control_strg: 0x294EC2B2,
                default_dest: Elevator::PhazonMinesEastMainQuarry,
            },
            Elevator::PhazonMinesEastMainQuarry => ElevatorData {
                pak_name: "metroid5.pak",
                name: "Phazon Mines East\0(Main Quarry)",
                mlvl: 0xb1ac4d65,
                mrea: 0x430e999c,
                mrea_idx: 0,
                scly_id: 0x001c,
                room_id: 0x2AC6EC36,
                room_strg: 0x8D7B16B4,
                hologram_strg: 0xB60F6ADF,
                control_strg: 0xA00EF446,
                default_dest: Elevator::TallonOverworldSouthGreatTreeHallLower,
            },
            Elevator::PhazonMinesWestPhazonProcessingCenter => ElevatorData {
                pak_name: "metroid5.pak",
                name: "Phazon Mines West\0(Phazon Processing Center)",
                mlvl: 0xb1ac4d65,
                mrea: 0xe2c2cf38,
                mrea_idx: 25,
                scly_id: 0x190011,
                room_id: 0x91C144BF,
                room_strg: 0x47C4108D,
                hologram_strg: 0xDFD2AE6D,
                control_strg: 0x1D8BB16C,
                default_dest: Elevator::MagmoorCavernsSouthMagmoorWorkstationDebris,
            },
            Elevator::MagmoorCavernsNorthLavaLake => ElevatorData {
                pak_name: "Metroid6.pak",
                name: "Magmoor Caverns North\0(Lava Lake)",
                mlvl: 0x3ef8237c,
                mrea: 0x3beaadc9,
                mrea_idx: 0,
                scly_id: 0x001f,
                room_id: 0x7DC0D75B,
                room_strg: 0x1BEFC19B,
                hologram_strg: 0x8EA3FD98,
                control_strg: 0x0D3EC7DC,
                default_dest: Elevator::ChozoRuinsNorthSunTower,
            },
            Elevator::MagmoorCavernsWestMonitorStation => ElevatorData {
                pak_name: "Metroid6.pak",
                name: "Magmoor Caverns West\0(Monitor Station)",
                mlvl: 0x3ef8237c,
                mrea: 0xdca9a28b,
                mrea_idx: 13,
                scly_id: 0xd0022,
                room_id: 0x4318F156,
                room_strg: 0xE0E1C4DA,
                hologram_strg: 0x4F2D2258,
                control_strg: 0xD0A81E59,
                default_dest: Elevator::PhendranaDriftsNorthPhendranaShorelines,
            },
            Elevator::MagmoorCavernsEastTwinFires => ElevatorData {
                pak_name: "Metroid6.pak",
                name: "Magmoor Caverns East\0(Twin Fires)",
                mlvl: 0x3ef8237c,
                mrea: 0x4c3d244c,
                mrea_idx: 16,
                scly_id: 0x100020,
                room_id: 0xB3128CF6,
                room_strg: 0xBD4E14B9,
                hologram_strg: 0x58DA42EA,
                control_strg: 0x4BE9A4CC,
                default_dest: Elevator::TallonOverworldWestRootCave,
            },
            Elevator::MagmoorCavernsSouthMagmoorWorkstationDebris => ElevatorData {
                pak_name: "Metroid6.pak",
                name: "Magmoor Caverns South\0(Magmoor Workstation, Debris)",
                mlvl: 0x3ef8237c,
                mrea: 0xef2f1440,
                mrea_idx: 26,
                scly_id: 0x1a0024,
                room_id: 0x921FFEDB,
                room_strg: 0xFF5F6594,
                hologram_strg: 0x28E3D615,
                control_strg: 0x2FAF7EDA,
                default_dest: Elevator::PhazonMinesWestPhazonProcessingCenter,
            },
            Elevator::MagmoorCavernsSouthMagmoorWorkstationSaveStation => ElevatorData {
                pak_name: "Metroid6.pak",
                name: "Magmoor Caverns South\0(Magmoor Workstation, Save Station)",
                mlvl: 0x3ef8237c,
                mrea: 0xc1ac9233,
                mrea_idx: 27,
                scly_id: 0x1b0028,
                room_id: 0xC0201A31,
                room_strg: 0x66DEBE97,
                hologram_strg: 0x61805AFF,
                control_strg: 0x6F30E3D4,
                default_dest: Elevator::PhendranaDriftsSouthQuarantineCave,
            },
            Elevator::CraterEntryPoint => ElevatorData {
                pak_name: "Metroid7.pak",
                name: "Crater Entry Point",
                mlvl: 0xc13b09d1,
                mrea: 0x93668996,
                mrea_idx: 0,
                scly_id: 0x0098,
                room_id: 0x2B878F78,
                room_strg: 0xFFFFFFFF,
                hologram_strg: 0xFFFFFFFF,
                control_strg: 0xFFFFFFFF,
                default_dest: Elevator::ArtifactTemple,
            },
        }
    }

    /// The room a game starting at the elevator starts in.
    fn spawn_room_data(&self) -> (r: SpawnRoomData)
        ensures
            spec_is_spawn_room_data(SpawnRoom::Elevator(*self), r),
    {
        SpawnRoomData::from_elevator_data(self.elevator_data())
    }

    /// The elevator with number `i`, if there is one.
    pub fn from_u32(i: u32) -> (r: Option<Elevator>)
        ensures
            i < 20 ==> r == Some(spec_elevators()[i as int]),
            i >= 20 ==> r is None,
    {
        match i {
            0 => Some(Elevator::ChozoRuinsWestMainPlaza),
            1 => Some(Elevator::ChozoRuinsNorthSunTower),
            2 => Some(Elevator::ChozoRuinsEastReflectingPoolSaveStation),
            3 => Some(Elevator::ChozoRuinsSouthReflectingPoolFarEnd),
            4 => Some(Elevator::PhendranaDriftsNorthPhendranaShorelines),
            5 => Some(Elevator::PhendranaDriftsSouthQuarantineCave),
            6 => Some(Elevator::TallonOverworldNorthTallonCanyon),
            7 => Some(Elevator::ArtifactTemple),
            8 => Some(Elevator::TallonOverworldEastFrigateCrashSite),
            9 => Some(Elevator::TallonOverworldWestRootCave),
            10 => Some(Elevator::TallonOverworldSouthGreatTreeHallUpper),
            11 => Some(Elevator::TallonOverworldSouthGreatTreeHallLower),
            12 => Some(Elevator::PhazonMinesEastMainQuarry),
            13 => Some(Elevator::PhazonMinesWestPhazonProcessingCenter),
            14 => Some(Elevator::MagmoorCavernsNorthLavaLake),
            15 => Some(Elevator::MagmoorCavernsWestMonitorStation),
            16 => Some(Elevator::MagmoorCavernsEastTwinFires),
            17 => Some(Elevator::MagmoorCavernsSouthMagmoorWorkstationDebris),
            18 => Some(Elevator::MagmoorCavernsSouthMagmoorWorkstationSaveStation),
            19 => Some(Elevator::CraterEntryPoint),
            _ => None,
        }
    }

    /// Every elevator, by number.
    pub fn iter() -> (r: Vec<Elevator>)
        ensures
            r@ == spec_elevators(),
    {
        let r = vec![
            Elevator::ChozoRuinsWestMainPlaza,
            Elevator::ChozoRuinsNorthSunTower,
            Elevator::ChozoRuinsEastReflectingPoolSaveStation,
            Elevator::ChozoRuinsSouthReflectingPoolFarEnd,
            Elevator::PhendranaDriftsNorthPhendranaShorelines,
            Elevator::PhendranaDriftsSouthQuarantineCave,
            Elevator::TallonOverworldNorthTallonCanyon,
            Elevator::ArtifactTemple,
            Elevator::TallonOverworldEastFrigateCrashSite,
            Elevator::TallonOverworldWestRootCave,
            Elevator::TallonOverworldSouthGreatTreeHallUpper,
            Elevator::TallonOverworldSouthGreatTreeHallLower,
            Elevator::PhazonMinesEastMainQuarry,
            Elevator::PhazonMinesWestPhazonProcessingCenter,
            Elevator::MagmoorCavernsNorthLavaLake,
            Elevator::MagmoorCavernsWestMonitorStation,
            Elevator::MagmoorCavernsEastTwinFires,
            Elevator::MagmoorCavernsSouthMagmoorWorkstationDebris,
            Elevator::MagmoorCavernsSouthMagmoorWorkstationSaveStation,
            Elevator::CraterEntryPoint,
        ];
        assert(r@ =~= spec_elevators());
        r
    }

    /// The first elevator, by number, that `name` names without regard to
    /// case, NULs and whitespace.
    pub fn from_str(name: &str) -> (r: Option<Elevator>)
        ensures
            match r {
                Some(e) => exists|i: int|
                    0 <= i < 20 && spec_elevators()[i] == e && spec_elevator_name_matches(name@, e) && forall|j: int|
                        0 <= j < i ==> !spec_elevator_name_matches(name@, #[trigger] spec_elevators()[j]),
                None => forall|i: int| 0 <= i < 20 ==> !spec_elevator_name_matches(name@, #[trigger] spec_elevators()[i]),
            },
    {
        let lower = to_lowercase(name);
        let key = squeeze(lower.as_str());
        let elevators = Elevator::iter();
        let mut i: usize = 0;
        while i < elevators.len()
            invariant
                0 <= i <= 20,
                elevators@ == spec_elevators(),
                key@ == spec_squeeze(spec_lowercase(name@)),
                forall|j: int| 0 <= j < i ==> !spec_elevator_name_matches(name@, #[trigger] spec_elevators()[j]),
            decreases 20 - i,
        {
            let e = elevators[i];
            let data = e.elevator_data();
            let lower_name = to_lowercase(data.name);
            let candidate = squeeze(lower_name.as_str());
            if chars_eq(&candidate, &key) {
                assert(spec_elevators()[i as int] == e);
                return Some(e);
            }
            i = i + 1;
        }
        None
    }
}

/// A room a new game can start in.
#[derive(Clone, Copy, Debug, PartialEq, Eq, Hash, Structural)]
pub enum SpawnRoom {
    Elevator(Elevator),
    LandingSite,
    EndingCinematic,
    FrigateExteriorDockingHangar,
}

/// Where a new game starts: the room's world, MLVL, MREA, index in its world,
/// room id and name.
#[derive(Clone, Copy, Debug)]
pub struct SpawnRoomData {
    pub pak_name: &'static str,
    pub mlvl: u32,
    pub mrea: u32,
    pub mrea_idx: u32,
    pub room_id: u32,
    pub name: &'static str,
}

/// The pak file of the spawn room's world.
pub open spec fn spec_spawn_pak_name(s: SpawnRoom) -> Seq<char> {
    match s {
        SpawnRoom::Elevator(e) => spec_elevator_pak_name(e),
        SpawnRoom::LandingSite => "Metroid4.pak"@,
        SpawnRoom::EndingCinematic => "Metroid8.pak"@,
        SpawnRoom::FrigateExteriorDockingHangar => "Metroid1.pak"@,
    }
}

/// The spawn room's name.
pub open spec fn spec_spawn_name(s: SpawnRoom) -> Seq<char> {
    match s {
        SpawnRoom::Elevator(e) => spec_elevator_name(e),
        SpawnRoom::LandingSite => "Landing Site"@,
        SpawnRoom::EndingCinematic => "End of Game"@,
        SpawnRoom::FrigateExteriorDockingHangar => "Frigate\0(Exterior Docking Hangar)"@,
    }
}

/// The spawn room's MLVL, MREA, index in its world and room id.
pub open spec fn spec_spawn_ids(s: SpawnRoom) -> (u32, u32, u32, u32) {
    match s {
        SpawnRoom::Elevator(e) => {
            let ids = spec_elevator_ids(e);
            (ids.0, ids.1, ids.2, ids.4)
        },
        SpawnRoom::LandingSite => (0x39f2de28, 0xb2701146, 0, 0x8ff17910),
        SpawnRoom::EndingCinematic => (0x13d79165, 0xb4b41c48, 0, 0),
        SpawnRoom::FrigateExteriorDockingHangar => (0x158EFE17, 0xD1241219, 0, 0xC34F20FF),
    }
}

/// The spawn room's data is what the spec functions above say.
pub open spec fn spec_is_spawn_room_data(s: SpawnRoom, d: SpawnRoomData) -> bool {
    &&& d.pak_name@ == spec_spawn_pak_name(s)
    &&& d.name@ == spec_spawn_name(s)
    &&& (d.mlvl, d.mrea, d.mrea_idx, d.room_id) == spec_spawn_ids(s)
}

impl SpawnRoomData {
    /// The spawn room data of an elevator's room.
    pub fn from_elevator_data(elv: ElevatorData) -> (r: SpawnRoomData)
        ensures
            r.pak_name == elv.pak_name,
            r.name == elv.name,
            (r.mlvl, r.mrea, r.mrea_idx, r.room_id) == (elv.mlvl, elv.mrea, elv.mrea_idx, elv.room_id),
    {
        SpawnRoomData {
            pak_name: elv.pak_name,
            mlvl: elv.mlvl,
            mrea: elv.mrea,
            mrea_idx: elv.mrea_idx,
            room_id: elv.room_id,
            name: elv.name,
        }
    }
}

impl SpawnRoom {
    /// Where a new game starting in this room starts.
    pub fn spawn_room_data(&self) -> (r: SpawnRoomData)
        ensures
            spec_is_spawn_room_data(*self, r),
    {
        match self {
            SpawnRoom::Elevator(elv) => elv.spawn_room_data(),
            SpawnRoom::LandingSite => SpawnRoomData {
                pak_name: "Metroid4.pak",
                mlvl: 0x39f2de28,
                mrea: 0xb2701146,
                mrea_idx: 0,
                room_id: 0x8ff17910,
                name: "Landing Site",
            },
            SpawnRoom::EndingCinematic => SpawnRoomData {
                pak_name: "Metroid8.pak",
                mlvl: 0x13d79165,
                mrea: 0xb4b41c48,
                mrea_idx: 0,
                room_id: 0,
                name: "End of Game",
            },
            SpawnRoom::FrigateExteriorDockingHangar => SpawnRoomData {
                pak_name: "Metroid1.pak",
                mlvl: 0x158EFE17,
                mrea: 0xD1241219,
                mrea_idx: 0,
                room_id: 0xC34F20FF,
                name: "Frigate\0(Exterior Docking Hangar)",
            },
        }
    }

    /// The spawn room with number `i`: the elevators first, then the landing
    /// site.
    pub fn from_u32(i: u32) -> (r: Option<SpawnRoom>)
        ensures
            i < 20 ==> r == Some(SpawnRoom::Elevator(spec_elevators()[i as int])),
            i == 20 ==> r == Some(SpawnRoom::LandingSite),
            i > 20 ==> r is None,
    {
        match Elevator::from_u32(i) {
            Some(elv) => Some(SpawnRoom::Elevator(elv)),
            None => if i == 20 {
                Some(SpawnRoom::LandingSite)
            } else {
                None
            },
        }
    }

    /// The spawn room of an elevator.
    pub fn from_elevator(elv: Elevator) -> (r: SpawnRoom)
        ensures
            r == SpawnRoom::Elevator(elv),
    {
        SpawnRoom::Elevator(elv)
    }

    /// Whether this is the room of elevator `other`.
    pub fn is_elevator(&self, other: Elevator) -> (r: bool)
        ensures
            r == (*self == SpawnRoom::Elevator(other)),
    {
        match self {
            SpawnRoom::Elevator(e) => *e == other,
            _ => false,
        }
    }
}

impl Default for SpawnRoom {
    /// The frigate's docking hangar, where the unpatched game starts.
    fn default() -> (r: Self)
        ensures
            r == SpawnRoom::FrigateExteriorDockingHangar,
    {
        SpawnRoom::FrigateExteriorDockingHangar
    }
}


/// Whether `w` is the first world, in `World::iter` order, whose pak file
/// has the name `p`.
pub open spec fn spec_first_pak_world(p: Seq<char>, w: World) -> bool {
    exists|i: int|
        0 <= i < 7 && spec_world_order()[i] == w && p == spec_pak_str(w) && forall|j: int|
            0 <= j < i ==> p != spec_pak_str(#[trigger] spec_world_order()[j])
}

/// The world whose pak file has the name `p`, if one has.
pub open spec fn spec_pak_world(p: Seq<char>) -> Option<World> {
    if exists|i: int| 0 <= i < 7 && p == spec_pak_str(#[trigger] spec_world_order()[i]) {
        Some(choose|w: World| #[trigger] spec_first_pak_world(p, w))
    } else {
        None
    }
}

/// What `World::from_pak` gives is `spec_pak_world`.
proof fn lemma_pak_world(p: Seq<char>, r: Option<World>)
    requires
        match r {
            Some(w) => spec_first_world(|w: World| p == spec_pak_str(w), w),
            None => forall|i: int| 0 <= i < 7 ==> p != spec_pak_str(#[trigger] spec_world_order()[i]),
        },
    ensures
        r == spec_pak_world(p),
{
    if let Some(w) = r {
        assert(spec_first_pak_world(p, w));
        let i1 = choose|i: int|
            0 <= i < 7 && spec_world_order()[i] == w && p == spec_pak_str(w) && forall|j: int|
                0 <= j < i ==> p != spec_pak_str(#[trigger] spec_world_order()[j]);
        assert(p == spec_pak_str(spec_world_order()[i1]));
        let w2 = choose|w: World| #[trigger] spec_first_pak_world(p, w);
        assert(spec_first_pak_world(p, w2));
        let i2 = choose|i: int|
            0 <= i < 7 && spec_world_order()[i] == w2 && p == spec_pak_str(w2) && forall|j: int|
                0 <= j < i ==> p != spec_pak_str(#[trigger] spec_world_order()[j]);
        if i1 < i2 {
            assert(p != spec_pak_str(spec_world_order()[i1]));
        } else if i2 < i1 {
            assert(p != spec_pak_str(spec_world_order()[i2]));
        }
    }
}

/// The first room, from index `i` on, whose name in lowercase is `room`.
pub open spec fn spec_room_index(rooms: Seq<RoomInfo>, i: int, room: Seq<char>) -> Option<int>
    decreases rooms.len() - i,
{
    if i < 0 || i >= rooms.len() {
        None
    } else if spec_lowercase(rooms[i].name@) == room {
        Some(i)
    } else {
        spec_room_index(rooms, i + 1, room)
    }
}

/// Searching the room list from pak `k` on: the first pak whose world's
/// name, in lowercase, starts with `world` and which has a room named `room`
/// (in lowercase), with that room's index. `None` where there is none, or a
/// pak of no known world is reached first.
pub open spec fn spec_room_search(
    table: Seq<(&'static str, &'static [RoomInfo])>,
    k: int,
    world: Seq<char>,
    room: Seq<char>,
) -> Option<(int, int)>
    decreases table.len() - k,
{
    if k < 0 || k >= table.len() {
        None
    } else {
        match spec_pak_world(table[k].0@) {
            None => None,
            Some(w) => if spec_starts_with(spec_lowercase(spec_world_str(w)), world) {
                match spec_room_index(table[k].1@, 0, room) {
                    Some(i) => Some((k, i)),
                    None => spec_room_search(table, k + 1, world, room),
                }
            } else {
                spec_room_search(table, k + 1, world, room)
            },
        }
    }
}

/// Whether `s` has exactly one colon, at `p`.
pub open spec fn spec_one_colon(s: Seq<char>, p: int) -> bool {
    &&& 0 <= p < s.len()
    &&& s[p] == ':'
    &&& forall|j: int| 0 <= j < s.len() && j != p ==> s[j] != ':'
}

/// Whether a lowercase destination names an elevator.
pub open spec fn spec_names_elevator(d: Seq<char>) -> bool {
    exists|i: int| 0 <= i < 20 && spec_elevator_name_matches(d, #[trigger] spec_elevators()[i])
}

/// The room a lowercase "<world>:<room>" destination names: its pak and
/// index in the room list.
pub open spec fn spec_room_destination(d: Seq<char>, table: Seq<(&'static str, &'static [RoomInfo])>) -> Option<
    (int, int),
> {
    if exists|p: int| spec_one_colon(d, p) {
        let p = choose|p: int| spec_one_colon(d, p);
        spec_room_search(table, 0, spec_trim(d.take(p)), spec_trim(d.skip(p + 1)))
    } else {
        None
    }
}

/// Whether a destination names a place to start: "credits", "frigate", an
/// elevator, or a room of the list (all in lowercase).
pub open spec fn spec_destination_known(dest: Seq<char>, table: Seq<(&'static str, &'static [RoomInfo])>) -> bool {
    let d = spec_lowercase(dest);
    d == "credits"@ || d == "frigate"@ || spec_names_elevator(d) || spec_room_destination(d, table) is Some
}

/// The data of a destination: the ending for "credits", the frigate's
/// hangar for "frigate", the first elevator the destination names, else
/// the room it names, with its world's pak and MLVL, its MREA and index in
/// its pak's list, and no room id.
pub open spec fn spec_destination_data(
    dest: Seq<char>,
    table: Seq<(&'static str, &'static [RoomInfo])>,
    r: SpawnRoomData,
) -> bool {
    let d = spec_lowercase(dest);
    if d == "credits"@ {
        spec_is_spawn_room_data(SpawnRoom::EndingCinematic, r)
    } else if d == "frigate"@ {
        spec_is_spawn_room_data(SpawnRoom::FrigateExteriorDockingHangar, r)
    } else if spec_names_elevator(d) {
        exists|i: int|
            0 <= i < 20 && spec_elevator_name_matches(d, spec_elevators()[i]) && (forall|j: int|
                0 <= j < i ==> !spec_elevator_name_matches(d, #[trigger] spec_elevators()[j]))
                && spec_is_spawn_room_data(SpawnRoom::Elevator(spec_elevators()[i]), r)
    } else {
        match spec_room_destination(d, table) {
            Some((k, i)) => {
                let room = table[k].1@[i];
                &&& r.pak_name@ == table[k].0@
                &&& r.mlvl == spec_mlvl(spec_pak_world(table[k].0@)->0)
                &&& r.mrea == room.room_id
                &&& r.mrea_idx == i
                &&& r.room_id == 0
                &&& r.name@ == room.name@
            },
            None => false,
        }
    }
}

/// Whether every pak of the room list has fewer rooms than a `u32` counts.
pub open spec fn spec_room_counts_fit(table: Seq<(&'static str, &'static [RoomInfo])>) -> bool {
    forall|k: int| 0 <= k < table.len() ==> #[trigger] table[k].1@.len() < u32::MAX
}

impl SpawnRoomData {
    /// Where a destination leaves a new game (see `spec_destination_data`),
    /// given the room list of the worlds; `None` where it names no place.
    pub fn find_destination(dest_name: &str, table: &[(&'static str, &'static [RoomInfo])]) -> (r: Option<
        SpawnRoomData,
    >)
        requires
            spec_room_counts_fit(table@),
        ensures
            r is Some <==> spec_destination_known(dest_name@, table@),
            r matches Some(x) ==> spec_destination_data(dest_name@, table@, x),
    {
        let lower = to_lowercase(dest_name);
        let d = lower.as_str();
        if str_eq(d, "credits") {
            return Some(SpawnRoom::EndingCinematic.spawn_room_data());
        }
        if str_eq(d, "frigate") {
            return Some(SpawnRoom::FrigateExteriorDockingHangar.spawn_room_data());
        }
        if let Some(elv) = Elevator::from_str(d) {
            return Some(SpawnRoom::Elevator(elv).spawn_room_data());
        }
        assert(!spec_names_elevator(d@));
        let n = d.unicode_len();
        let mut colon: Option<usize> = None;
        let mut i: usize = 0;
        while i < n
            invariant
                0 <= i <= n,
                n == d@.len(),
                d@ == lower@,
                lower@ == spec_lowercase(dest_name@),
                !spec_names_elevator(d@),
                d@ != "credits"@,
                d@ != "frigate"@,
                match colon {
                    Some(p) => p < i && d@[p as int] == ':' && forall|j: int| 0 <= j < i && j != p ==> d@[j] != ':',
                    None => forall|j: int| 0 <= j < i ==> d@[j] != ':',
                },
            decreases n - i,
        {
            if d.get_char(i) == ':' {
                if colon.is_some() {
                    proof {
                        let p = colon->0;
                        assert forall|q: int| !spec_one_colon(d@, q) by {
                            if spec_one_colon(d@, q) {
                                if q != p as int {
                                    assert(d@[p as int] == ':');
                                } else {
                                    assert(d@[i as int] == ':');
                                }
                            }
                        }
                    }
                    return None;
                }
                colon = Some(i);
            }
            i = i + 1;
        }
        let p = match colon {
            Some(p) => p,
            None => {
                assert forall|q: int| !spec_one_colon(d@, q) by {
                    if spec_one_colon(d@, q) {
                        assert(d@[q] == ':');
                    }
                }
                return None;
            },
        };
        assert(spec_one_colon(d@, p as int));
        proof {
            let q = choose|q: int| spec_one_colon(d@, q);
            assert(q == p as int) by {
                if q != p as int {
                    assert(d@[q] == ':');
                }
            }
        }
        let world_part = trim(d.substring_char(0, p));
        let room_part = trim(d.substring_char(p + 1, n));
        assert(d@.subrange(0, p as int) =~= d@.take(p as int));
        assert(d@.subrange(p + 1, n as int) =~= d@.skip(p + 1));
        let ghost w = world_part@;
        let ghost rm = room_part@;
        let mut k: usize = 0;
        while k < table.len()
            invariant
                0 <= k <= table@.len(),
                spec_room_counts_fit(table@),
                spec_room_destination(d@, table@) == spec_room_search(table@, k as int, w, rm),
                w == world_part@,
                rm == room_part@,
                d@ == lower@,
                lower@ == spec_lowercase(dest_name@),
                !spec_names_elevator(d@),
                d@ != "credits"@,
                d@ != "frigate"@,
            decreases table@.len() - k,
        {
            let (pak_name, rooms) = table[k];
            assert(rooms@.len() < u32::MAX);
            let world = match World::from_pak(pak_name) {
                Some(wd) => wd,
                None => {
                    proof {
                        lemma_pak_world(pak_name@, None);
                    }
                    return None;
                },
            };
            proof {
                lemma_pak_world(pak_name@, Some(world));
            }
            let world_lower = to_lowercase(world.to_str());
            if str_starts_with(world_lower.as_str(), world_part) {
                let mut idx: usize = 0;
                while idx < rooms.len()
                    invariant
                        0 <= idx <= rooms@.len(),
                        rooms@.len() < u32::MAX,
                        spec_room_index(rooms@, 0, rm) == spec_room_index(rooms@, idx as int, rm),
                        rm == room_part@,
                        w == world_part@,
                        k < table@.len(),
                        table@[k as int] == (pak_name, rooms),
                        spec_pak_world(pak_name@) == Some(world),
                        spec_starts_with(spec_lowercase(spec_world_str(world)), w),
                        spec_room_destination(d@, table@) == spec_room_search(table@, k as int, w, rm),
                        d@ == lower@,
                        lower@ == spec_lowercase(dest_name@),
                        !spec_names_elevator(d@),
                        d@ != "credits"@,
                        d@ != "frigate"@,
                    decreases rooms@.len() - idx,
                {
                    let room_lower = to_lowercase(rooms[idx].name);
                    if str_eq(room_lower.as_str(), room_part) {
                        return Some(
                            SpawnRoomData {
                                pak_name,
                                mlvl: world.mlvl(),
                                mrea: rooms[idx].room_id,
                                mrea_idx: idx as u32,
                                room_id: 0,
                                name: rooms[idx].name,
                            },
                        );
                    }
                    idx = idx + 1;
                }
            }
            k = k + 1;
        }
        None
    }

    /// Where a destination leaves a new game (see `spec_destination_data`),
    /// given the room list of the worlds; the destination must name a place.
    pub fn from_str(dest_name: &str, table: &[(&'static str, &'static [RoomInfo])]) -> (r: SpawnRoomData)
        requires
            spec_room_counts_fit(table@),
            spec_destination_known(dest_name@, table@),
        ensures
            spec_destination_data(dest_name@, table@, r),
    {
        match Self::find_destination(dest_name, table) {
            Some(x) => x,
            None => SpawnRoom::LandingSite.spawn_room_data(),
        }
    }
}


/// The form of an elevator's name that `from_str` compares: lowercase,
/// without NULs and whitespace.
pub open spec fn spec_elevator_key(e: Elevator) -> Seq<char> {
    spec_squeeze(spec_lowercase(spec_elevator_name(e)))
}

/// A number that tells the elevators' keys apart: the first character, the
/// fourth from the end and the ninth from the end.
pub open spec fn spec_elevator_key_code(k: Seq<char>) -> int {
    (k[0] as int) * 65536 + (k[k.len() - 4] as int) * 256 + (k[k.len() - 9] as int)
}

/// The code of each elevator's key.
pub open spec fn spec_elevator_code(e: Elevator) -> int {
    match e {
        Elevator::ChozoRuinsWestMainPlaza => 6512993,
        Elevator::ChozoRuinsNorthSunTower => 6518643,
        Elevator::ChozoRuinsEastReflectingPoolSaveStation => 6515045,
        Elevator::ChozoRuinsSouthReflectingPoolFarEnd => 6514028,
        Elevator::PhendranaDriftsNorthPhendranaShorelines => 7368303,
        Elevator::PhendranaDriftsSouthQuarantineCave => 7364980,
        Elevator::TallonOverworldNorthTallonCanyon => 7633263,
        Elevator::ArtifactTemple => 6384993,
        Elevator::TallonOverworldEastFrigateCrashSite => 7629170,
        Elevator::TallonOverworldWestRootCave => 7627122,
        Elevator::TallonOverworldSouthGreatTreeHallUpper => 7630956,
        Elevator::TallonOverworldSouthGreatTreeHallLower => 7632748,
        Elevator::PhazonMinesEastMainQuarry => 7369321,
        Elevator::PhazonMinesWestPhazonProcessingCenter => 7369838,
        Elevator::MagmoorCavernsNorthLavaLake => 7168364,
        Elevator::MagmoorCavernsWestMonitorStation => 7170418,
        Elevator::MagmoorCavernsEastTwinFires => 7172727,
        Elevator::MagmoorCavernsSouthMagmoorWorkstationDebris => 7172718,
        Elevator::MagmoorCavernsSouthMagmoorWorkstationSaveStation => 7170405,
        Elevator::CraterEntryPoint => 6516590,
    }
}

/// The elevator whose key has the code.
pub open spec fn spec_elevator_of_code(c: int) -> Elevator {
    if c == 6512993 {
        Elevator::ChozoRuinsWestMainPlaza
    } else if c == 6518643 {
        Elevator::ChozoRuinsNorthSunTower
    } else if c == 6515045 {
        Elevator::ChozoRuinsEastReflectingPoolSaveStation
    } else if c == 6514028 {
        Elevator::ChozoRuinsSouthReflectingPoolFarEnd
    } else if c == 7368303 {
        Elevator::PhendranaDriftsNorthPhendranaShorelines
    } else if c == 7364980 {
        Elevator::PhendranaDriftsSouthQuarantineCave
    } else if c == 7633263 {
        Elevator::TallonOverworldNorthTallonCanyon
    } else if c == 6384993 {
        Elevator::ArtifactTemple
    } else if c == 7629170 {
        Elevator::TallonOverworldEastFrigateCrashSite
    } else if c == 7627122 {
        Elevator::TallonOverworldWestRootCave
    } else if c == 7630956 {
        Elevator::TallonOverworldSouthGreatTreeHallUpper
    } else if c == 7632748 {
        Elevator::TallonOverworldSouthGreatTreeHallLower
    } else if c == 7369321 {
        Elevator::PhazonMinesEastMainQuarry
    } else if c == 7369838 {
        Elevator::PhazonMinesWestPhazonProcessingCenter
    } else if c == 7168364 {
        Elevator::MagmoorCavernsNorthLavaLake
    } else if c == 7170418 {
        Elevator::MagmoorCavernsWestMonitorStation
    } else if c == 7172727 {
        Elevator::MagmoorCavernsEastTwinFires
    } else if c == 7172718 {
        Elevator::MagmoorCavernsSouthMagmoorWorkstationDebris
    } else if c == 7170405 {
        Elevator::MagmoorCavernsSouthMagmoorWorkstationSaveStation
    } else {
        Elevator::CraterEntryPoint
    }
}

/// An elevator's number, its place in `spec_elevators`.
pub open spec fn spec_elevator_index(e: Elevator) -> int {
    match e {
        Elevator::ChozoRuinsWestMainPlaza => 0,
        Elevator::ChozoRuinsNorthSunTower => 1,
        Elevator::ChozoRuinsEastReflectingPoolSaveStation => 2,
        Elevator::ChozoRuinsSouthReflectingPoolFarEnd => 3,
        Elevator::PhendranaDriftsNorthPhendranaShorelines => 4,
        Elevator::PhendranaDriftsSouthQuarantineCave => 5,
        Elevator::TallonOverworldNorthTallonCanyon => 6,
        Elevator::ArtifactTemple => 7,
        Elevator::TallonOverworldEastFrigateCrashSite => 8,
        Elevator::TallonOverworldWestRootCave => 9,
        Elevator::TallonOverworldSouthGreatTreeHallUpper => 10,
        Elevator::TallonOverworldSouthGreatTreeHallLower => 11,
        Elevator::PhazonMinesEastMainQuarry => 12,
        Elevator::PhazonMinesWestPhazonProcessingCenter => 13,
        Elevator::MagmoorCavernsNorthLavaLake => 14,
        Elevator::MagmoorCavernsWestMonitorStation => 15,
        Elevator::MagmoorCavernsEastTwinFires => 16,
        Elevator::MagmoorCavernsSouthMagmoorWorkstationDebris => 17,
        Elevator::MagmoorCavernsSouthMagmoorWorkstationSaveStation => 18,
        Elevator::CraterEntryPoint => 19,
    }
}

/// Nothing is left of an empty string when it is squeezed.
proof fn lemma_squeeze_empty()
    ensures
        spec_squeeze(Seq::<char>::empty()) == Seq::<char>::empty(),
{
    reveal(Seq::filter);
}

/// A string that starts with a character that is kept squeezes to that
/// character, then its squeezed middle, then its squeezed tail.
proof fn lemma_squeeze_parts(x: Seq<char>, m: int)
    requires
        1 <= m <= x.len(),
        x[0] != '\0',
        !spec_is_whitespace(x[0]),
    ensures
        spec_squeeze(x) == seq![x[0]] + spec_squeeze(x.subrange(1, m)) + spec_squeeze(x.skip(m)),
{
    broadcast use Seq::filter_distributes_over_add, Seq::lemma_filter_push;

    let head = x.take(1);
    let mid = x.subrange(1, m);
    let tail = x.skip(m);
    assert(x =~= head + mid + tail);
    assert(head =~= Seq::<char>::empty().push(x[0]));
    lemma_squeeze_empty();
    assert(spec_squeeze(head) =~= seq![x[0]]);
    assert(spec_squeeze(head + mid + tail) == spec_squeeze(head + mid) + spec_squeeze(tail));
    assert(spec_squeeze(head + mid) == spec_squeeze(head) + spec_squeeze(mid));
}

/// Whether the first `i` characters of `s`, without NULs and whitespace,
/// are the first `j` characters of `t`.
spec fn spec_squeezes_to(s: Seq<char>, t: Seq<char>, i: int, j: int) -> bool
    decreases i,
{
    if i <= 0 {
        j == 0
    } else if s[i - 1] != '\0' && !spec_is_whitespace(s[i - 1]) {
        j > 0 && t[j - 1] == s[i - 1] && spec_squeezes_to(s, t, i - 1, j - 1)
    } else {
        spec_squeezes_to(s, t, i - 1, j)
    }
}

/// What `spec_squeezes_to` checks character by character is what squeezing
/// gives.
proof fn lemma_squeezes_to(s: Seq<char>, t: Seq<char>, i: int, j: int)
    requires
        0 <= i <= s.len(),
        0 <= j <= t.len(),
        spec_squeezes_to(s, t, i, j),
    ensures
        spec_squeeze(s.take(i)) == t.take(j),
    decreases i,
{
    if i == 0 {
        lemma_squeeze_empty();
        assert(s.take(0) =~= Seq::<char>::empty());
        assert(t.take(0) =~= Seq::<char>::empty());
    } else {
        let c = s[i - 1];
        assert(s.take(i) =~= s.take(i - 1).push(c));
        s.take(i - 1).lemma_filter_push(c, |c: char| c != '\0' && !spec_is_whitespace(c));
        if c != '\0' && !spec_is_whitespace(c) {
            lemma_squeezes_to(s, t, i - 1, j - 1);
            assert(t.take(j) =~= t.take(j - 1).push(t[j - 1]));
        } else {
            lemma_squeezes_to(s, t, i - 1, j);
        }
    }
}

/// The key of an ASCII name whose first character is kept and whose tail
/// from `m` squeezes to the nine characters `t`: its code comes from the
/// first character and `t`.
proof fn lemma_key_from_tail(name: Seq<char>, m: int, t: Seq<char>)
    requires
        spec_all_ascii(name),
        1 <= m <= name.len(),
        t.len() == 9,
        spec_squeezes_to(spec_ascii_lowercase(name).skip(m), t, name.len() - m, 9),
        spec_ascii_lower_char(name[0]) != '\0',
        !spec_is_whitespace(spec_ascii_lower_char(name[0])),
    ensures
        spec_squeeze(spec_lowercase(name)).len() >= 9,
        spec_elevator_key_code(spec_squeeze(spec_lowercase(name))) == (spec_ascii_lower_char(name[0]) as int)
            * 65536 + (t[5] as int) * 256 + (t[0] as int),
{
    let x = spec_ascii_lowercase(name);
    assert(spec_lowercase(name) == x);
    let tail = x.skip(m);
    lemma_squeezes_to(tail, t, tail.len() as int, 9);
    assert(tail.take(tail.len() as int) =~= tail);
    assert(t.take(9) =~= t);
    lemma_squeeze_parts(x, m);
}

/// An elevator's name is ASCII, and its key has the elevator's code, which
/// leads back to the elevator.
#[verifier::rlimit(100)]
#[verifier::spinoff_prover]
proof fn lemma_elevator_key_code(e: Elevator)
    ensures
        spec_all_ascii(spec_elevator_name(e)),
        spec_elevator_key(e).len() >= 9,
        spec_elevator_key_code(spec_elevator_key(e)) == spec_elevator_code(e),
        spec_elevator_of_code(spec_elevator_code(e)) == e,
        0 <= spec_elevator_index(e) < 20,
        spec_elevators()[spec_elevator_index(e)] == e,
{
    let name = spec_elevator_name(e);
    match e {
        Elevator::ChozoRuinsWestMainPlaza => {
            reveal_strlit("Chozo Ruins West\0(Main Plaza)");
            reveal_strlit("ainplaza)");
            assert(spec_all_ascii(name));
            assert(spec_squeezes_to(spec_ascii_lowercase(name).skip(19), "ainplaza)"@, 10, 9)) by {
                reveal_with_fuel(spec_squeezes_to, 11);
            }
            lemma_key_from_tail(name, 19, "ainplaza)"@);
        },
        Elevator::ChozoRuinsNorthSunTower => {
            reveal_strlit("Chozo Ruins North\0(Sun Tower)");
            reveal_strlit("suntower)");
            assert(spec_all_ascii(name));
            assert(spec_squeezes_to(spec_ascii_lowercase(name).skip(19), "suntower)"@, 10, 9)) by {
                reveal_with_fuel(spec_squeezes_to, 11);
            }
            lemma_key_from_tail(name, 19, "suntower)"@);
        },
        Elevator::ChozoRuinsEastReflectingPoolSaveStation => {
            reveal_strlit("Chozo Ruins East\0(Reflecting Pool, Save Station)");
            reveal_strlit("estation)");
            assert(spec_all_ascii(name));
            assert(spec_squeezes_to(spec_ascii_lowercase(name).skip(38), "estation)"@, 10, 9)) by {
                reveal_with_fuel(spec_squeezes_to, 11);
            }
            lemma_key_from_tail(name, 38, "estation)"@);
        },
        Elevator::ChozoRuinsSouthReflectingPoolFarEnd => {
            reveal_strlit("Chozo Ruins South\0(Reflecting Pool, Far End)");
            reveal_strlit("l,farend)");
            assert(spec_all_ascii(name));
            assert(spec_squeezes_to(spec_ascii_lowercase(name).skip(33), "l,farend)"@, 11, 9)) by {
                reveal_with_fuel(spec_squeezes_to, 12);
            }
            lemma_key_from_tail(name, 33, "l,farend)"@);
        },
        Elevator::PhendranaDriftsNorthPhendranaShorelines => {
            reveal_strlit("Phendrana Drifts North\0(Phendrana Shorelines)");
            reveal_strlit("orelines)");
            assert(spec_all_ascii(name));
            assert(spec_squeezes_to(spec_ascii_lowercase(name).skip(36), "orelines)"@, 9, 9)) by {
                reveal_with_fuel(spec_squeezes_to, 10);
            }
            lemma_key_from_tail(name, 36, "orelines)"@);
        },
        Elevator::PhendranaDriftsSouthQuarantineCave => {
            reveal_strlit("Phendrana Drifts South\0(Quarantine Cave)");
            reveal_strlit("tinecave)");
            assert(spec_all_ascii(name));
            assert(spec_squeezes_to(spec_ascii_lowercase(name).skip(30), "tinecave)"@, 10, 9)) by {
                reveal_with_fuel(spec_squeezes_to, 11);
            }
            lemma_key_from_tail(name, 30, "tinecave)"@);
        },
        Elevator::TallonOverworldNorthTallonCanyon => {
            reveal_strlit("Tallon Overworld North\0(Tallon Canyon)");
            reveal_strlit("oncanyon)");
            assert(spec_all_ascii(name));
            assert(spec_squeezes_to(spec_ascii_lowercase(name).skip(28), "oncanyon)"@, 10, 9)) by {
                reveal_with_fuel(spec_squeezes_to, 11);
            }
            lemma_key_from_tail(name, 28, "oncanyon)"@);
        },
        Elevator::ArtifactTemple => {
            reveal_strlit("Artifact Temple");
            reveal_strlit("acttemple");
            assert(spec_all_ascii(name));
            assert(spec_squeezes_to(spec_ascii_lowercase(name).skip(5), "acttemple"@, 10, 9)) by {
                reveal_with_fuel(spec_squeezes_to, 11);
            }
            lemma_key_from_tail(name, 5, "acttemple"@);
        },
        Elevator::TallonOverworldEastFrigateCrashSite => {
            reveal_strlit("Tallon Overworld East\0(Frigate Crash Site)");
            reveal_strlit("rashsite)");
            assert(spec_all_ascii(name));
            assert(spec_squeezes_to(spec_ascii_lowercase(name).skip(32), "rashsite)"@, 10, 9)) by {
                reveal_with_fuel(spec_squeezes_to, 11);
            }
            lemma_key_from_tail(name, 32, "rashsite)"@);
        },
        Elevator::TallonOverworldWestRootCave => {
            reveal_strlit("Tallon Overworld West\0(Root Cave)");
            reveal_strlit("rootcave)");
            assert(spec_all_ascii(name));
            assert(spec_squeezes_to(spec_ascii_lowercase(name).skip(23), "rootcave)"@, 10, 9)) by {
                reveal_with_fuel(spec_squeezes_to, 11);
            }
            lemma_key_from_tail(name, 23, "rootcave)"@);
        },
        Elevator::TallonOverworldSouthGreatTreeHallUpper => {
            reveal_strlit("Tallon Overworld South\0(Great Tree Hall, Upper)");
            reveal_strlit("ll,upper)");
            assert(spec_all_ascii(name));
            assert(spec_squeezes_to(spec_ascii_lowercase(name).skip(37), "ll,upper)"@, 10, 9)) by {
                reveal_with_fuel(spec_squeezes_to, 11);
            }
            lemma_key_from_tail(name, 37, "ll,upper)"@);
        },
        Elevator::TallonOverworldSouthGreatTreeHallLower => {
            reveal_strlit("Tallon Overworld South\0(Great Tree Hall, Lower)");
            reveal_strlit("ll,lower)");
            assert(spec_all_ascii(name));
            assert(spec_squeezes_to(spec_ascii_lowercase(name).skip(37), "ll,lower)"@, 10, 9)) by {
                reveal_with_fuel(spec_squeezes_to, 11);
            }
            lemma_key_from_tail(name, 37, "ll,lower)"@);
        },
        Elevator::PhazonMinesEastMainQuarry => {
            reveal_strlit("Phazon Mines East\0(Main Quarry)");
            reveal_strlit("inquarry)");
            assert(spec_all_ascii(name));
            assert(spec_squeezes_to(spec_ascii_lowercase(name).skip(21), "inquarry)"@, 10, 9)) by {
                reveal_with_fuel(spec_squeezes_to, 11);
            }
            lemma_key_from_tail(name, 21, "inquarry)"@);
        },
        Elevator::PhazonMinesWestPhazonProcessingCenter => {
            reveal_strlit("Phazon Mines West\0(Phazon Processing Center)");
            reveal_strlit("ngcenter)");
            assert(spec_all_ascii(name));
            assert(spec_squeezes_to(spec_ascii_lowercase(name).skip(34), "ngcenter)"@, 10, 9)) by {
                reveal_with_fuel(spec_squeezes_to, 11);
            }
            lemma_key_from_tail(name, 34, "ngcenter)"@);
        },
        Elevator::MagmoorCavernsNorthLavaLake => {
            reveal_strlit("Magmoor Caverns North\0(Lava Lake)");
            reveal_strlit("lavalake)");
            assert(spec_all_ascii(name));
            assert(spec_squeezes_to(spec_ascii_lowercase(name).skip(23), "lavalake)"@, 10, 9)) by {
                reveal_with_fuel(spec_squeezes_to, 11);
            }
            lemma_key_from_tail(name, 23, "lavalake)"@);
        },
        Elevator::MagmoorCavernsWestMonitorStation => {
            reveal_strlit("Magmoor Caverns West\0(Monitor Station)");
            reveal_strlit("rstation)");
            assert(spec_all_ascii(name));
            assert(spec_squeezes_to(spec_ascii_lowercase(name).skip(28), "rstation)"@, 10, 9)) by {
                reveal_with_fuel(spec_squeezes_to, 11);
            }
            lemma_key_from_tail(name, 28, "rstation)"@);
        },
        Elevator::MagmoorCavernsEastTwinFires => {
            reveal_strlit("Magmoor Caverns East\0(Twin Fires)");
            reveal_strlit("winfires)");
            assert(spec_all_ascii(name));
            assert(spec_squeezes_to(spec_ascii_lowercase(name).skip(23), "winfires)"@, 10, 9)) by {
                reveal_with_fuel(spec_squeezes_to, 11);
            }
            lemma_key_from_tail(name, 23, "winfires)"@);
        },
        Elevator::MagmoorCavernsSouthMagmoorWorkstationDebris => {
            reveal_strlit("Magmoor Caverns South\0(Magmoor Workstation, Debris)");
            reveal_strlit("n,debris)");
            assert(spec_all_ascii(name));
            assert(spec_squeezes_to(spec_ascii_lowercase(name).skip(41), "n,debris)"@, 10, 9)) by {
                reveal_with_fuel(spec_squeezes_to, 11);
            }
            lemma_key_from_tail(name, 41, "n,debris)"@);
        },
        Elevator::MagmoorCavernsSouthMagmoorWorkstationSaveStation => {
            reveal_strlit("Magmoor Caverns South\0(Magmoor Workstation, Save Station)");
            reveal_strlit("estation)");
            assert(spec_all_ascii(name));
            assert(spec_squeezes_to(spec_ascii_lowercase(name).skip(47), "estation)"@, 10, 9)) by {
                reveal_with_fuel(spec_squeezes_to, 11);
            }
            lemma_key_from_tail(name, 47, "estation)"@);
        },
        Elevator::CraterEntryPoint => {
            reveal_strlit("Crater Entry Point");
            reveal_strlit("ntrypoint");
            assert(spec_all_ascii(name));
            assert(spec_squeezes_to(spec_ascii_lowercase(name).skip(8), "ntrypoint"@, 10, 9)) by {
                reveal_with_fuel(spec_squeezes_to, 11);
            }
            lemma_key_from_tail(name, 8, "ntrypoint"@);
        },
    }
}

/// A string that names an elevator names no other, and `from_str` gives
/// that elevator: it comes first among those the string names.
pub proof fn lemma_elevator_name_found(s: Seq<char>, e: Elevator)
    requires
        spec_elevator_name_matches(s, e),
    ensures
        exists|i: int|
            0 <= i < 20 && spec_elevators()[i] == e && forall|j: int|
                0 <= j < i ==> !spec_elevator_name_matches(s, #[trigger] spec_elevators()[j]),
        forall|v: Elevator| #[trigger] spec_elevator_name_matches(s, v) ==> v == e,
{
    lemma_elevator_key_code(e);
    assert forall|v: Elevator| #[trigger] spec_elevator_name_matches(s, v) implies v == e by {
        lemma_elevator_key_code(v);
    }
    let i = spec_elevator_index(e);
    assert forall|j: int| 0 <= j < i implies !spec_elevator_name_matches(s, #[trigger] spec_elevators()[j]) by {
        if spec_elevator_name_matches(s, spec_elevators()[j]) {
            lemma_elevator_key_code(spec_elevators()[j]);
        }
    }
}

/// An elevator's own name leads back to it: `from_str(e.name)` is `e`.
pub proof fn lemma_elevator_name_round_trip(e: Elevator)
    ensures
        spec_elevator_name_matches(spec_elevator_name(e), e),
        exists|i: int|
            0 <= i < 20 && spec_elevators()[i] == e && forall|j: int|
                0 <= j < i ==> !spec_elevator_name_matches(spec_elevator_name(e), #[trigger] spec_elevators()[j]),
{
    lemma_elevator_name_found(spec_elevator_name(e), e);
}



/// The world an elevator stands in.
pub open spec fn spec_elevator_world(e: Elevator) -> World {
    match e {
        Elevator::ChozoRuinsWestMainPlaza => World::ChozoRuins,
        Elevator::ChozoRuinsNorthSunTower => World::ChozoRuins,
        Elevator::ChozoRuinsEastReflectingPoolSaveStation => World::ChozoRuins,
        Elevator::ChozoRuinsSouthReflectingPoolFarEnd => World::ChozoRuins,
        Elevator::PhendranaDriftsNorthPhendranaShorelines => World::PhendranaDrifts,
        Elevator::PhendranaDriftsSouthQuarantineCave => World::PhendranaDrifts,
        Elevator::TallonOverworldNorthTallonCanyon => World::TallonOverworld,
        Elevator::ArtifactTemple => World::TallonOverworld,
        Elevator::TallonOverworldEastFrigateCrashSite => World::TallonOverworld,
        Elevator::TallonOverworldWestRootCave => World::TallonOverworld,
        Elevator::TallonOverworldSouthGreatTreeHallUpper => World::TallonOverworld,
        Elevator::TallonOverworldSouthGreatTreeHallLower => World::TallonOverworld,
        Elevator::PhazonMinesEastMainQuarry => World::PhazonMines,
        Elevator::PhazonMinesWestPhazonProcessingCenter => World::PhazonMines,
        Elevator::MagmoorCavernsNorthLavaLake => World::MagmoorCaverns,
        Elevator::MagmoorCavernsWestMonitorStation => World::MagmoorCaverns,
        Elevator::MagmoorCavernsEastTwinFires => World::MagmoorCaverns,
        Elevator::MagmoorCavernsSouthMagmoorWorkstationDebris => World::MagmoorCaverns,
        Elevator::MagmoorCavernsSouthMagmoorWorkstationSaveStation => World::MagmoorCaverns,
        Elevator::CraterEntryPoint => World::ImpactCrater,
    }
}

/// The digit in the name of a world's pak file.
spec fn spec_pak_digit(w: World) -> char {
    match w {
        World::FrigateOrpheon => '1',
        World::ChozoRuins => '2',
        World::PhendranaDrifts => '3',
        World::TallonOverworld => '4',
        World::PhazonMines => '5',
        World::MagmoorCaverns => '6',
        World::ImpactCrater => '7',
    }
}

/// The eighth character of a world's pak file name is the world's digit.
proof fn lemma_pak_digit(w: World)
    ensures
        spec_pak_str(w).len() == 12,
        spec_pak_str(w)[7] == spec_pak_digit(w),
{
    match w {
        World::FrigateOrpheon => {
            reveal_strlit("Metroid1.pak");
        },
        World::ChozoRuins => {
            reveal_strlit("Metroid2.pak");
        },
        World::PhendranaDrifts => {
            reveal_strlit("Metroid3.pak");
        },
        World::TallonOverworld => {
            reveal_strlit("Metroid4.pak");
        },
        World::PhazonMines => {
            reveal_strlit("metroid5.pak");
        },
        World::MagmoorCaverns => {
            reveal_strlit("Metroid6.pak");
        },
        World::ImpactCrater => {
            reveal_strlit("Metroid7.pak");
        },
    }
}

/// Each world has a pak file name of its own, and `from_pak` gives the world
/// back from it.
pub proof fn lemma_pak_world_of(w: World)
    ensures
        spec_pak_world(spec_pak_str(w)) == Some(w),
        forall|v: World| spec_pak_str(v) == spec_pak_str(w) ==> v == w,
{
    let p = spec_pak_str(w);
    lemma_pak_digit(w);
    assert forall|v: World| spec_pak_str(v) == spec_pak_str(w) implies v == w by {
        lemma_pak_digit(v);
    }
    let i = spec_world_index(w);
    assert(0 <= i < 7 && spec_world_order()[i] == w) by {
        match w {
            World::FrigateOrpheon => {},
            World::ChozoRuins => {},
            World::PhendranaDrifts => {},
            World::TallonOverworld => {},
            World::PhazonMines => {},
            World::MagmoorCaverns => {},
            World::ImpactCrater => {},
        }
    }
    assert forall|j: int| 0 <= j < i implies p != spec_pak_str(#[trigger] spec_world_order()[j]) by {
        let v = spec_world_order()[j];
        assert(v != w) by {
            if j == 0 {} else if j == 1 {} else if j == 2 {} else if j == 3 {} else if j == 4 {} else if j == 5 {} else {}
        }
    }
    assert(spec_first_pak_world(p, w));
    let w2 = choose|v: World| #[trigger] spec_first_pak_world(p, v);
    assert(spec_first_pak_world(p, w2));
}

/// Every elevator's pak file is that of its world, which `from_pak` finds,
/// and the world's MLVL is the elevator's.
pub proof fn lemma_elevator_world(e: Elevator)
    ensures
        spec_elevator_pak_name(e) == spec_pak_str(spec_elevator_world(e)),
        spec_pak_world(spec_elevator_pak_name(e)) == Some(spec_elevator_world(e)),
        spec_mlvl(spec_elevator_world(e)) == spec_elevator_ids(e).0,
{
    lemma_pak_world_of(spec_elevator_world(e));
}


/// The elevators' default destinations pair them up: each elevator leads to
/// another one, in another world, which leads back to it.
pub proof fn lemma_default_dest_pairs(e: Elevator)
    ensures
        spec_default_dest(spec_default_dest(e)) == e,
        spec_default_dest(e) != e,
        spec_elevator_world(spec_default_dest(e)) != spec_elevator_world(e),
{
}


/// Every spawn room in a world (all but the ending, which has a pak file of
/// its own) lies in the world whose pak file it names, and its MLVL is that
/// world's.
pub proof fn lemma_spawn_room_world(s: SpawnRoom)
    requires
        s != SpawnRoom::EndingCinematic,
    ensures
        spec_pak_world(spec_spawn_pak_name(s)) matches Some(w) && spec_mlvl(w) == spec_spawn_ids(s).0,
{
    match s {
        SpawnRoom::Elevator(e) => {
            lemma_elevator_world(e);
        },
        SpawnRoom::LandingSite => {
            lemma_pak_world_of(World::TallonOverworld);
        },
        SpawnRoom::FrigateExteriorDockingHangar => {
            lemma_pak_world_of(World::FrigateOrpheon);
        },
        SpawnRoom::EndingCinematic => {},
    }
}

} // verus!
