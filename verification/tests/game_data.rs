use randomprime::elevators::{Elevator, SpawnRoom, SpawnRoomData};
use randomprime::patch_config::{
    iso_format_for, ArtifactHintBehavior, ConfigError, CtwkConfig, CutsceneMode, GameBanner, IsoFormat, LevelConfig, MapState,
    PatchOptions, PickupConfig, RoomConfig,
};
use randomprime::patcher_state::PatcherState;
use randomprime::pickup_meta::{PickupModel, PickupType, RoomInfo};
use randomprime::starting_items::StartingItems;
use randomprime::world::World;

#[test]
fn starting_items_decode_from_their_bits() {
    let s = StartingItems::from_u64(1);
    assert!(s.scan_visor);
    assert_eq!(s.missiles, 0);
    assert!(!s.is_empty());
    assert_eq!(StartingItems::default(), s);
    // five missiles, two energy tanks, the morph ball and the flamethrower.
    let v: u64 = (5 << 1) | (2 << 9) | (1 << 21) | (1 << 35);
    let s = StartingItems::from_u64(v);
    assert!(!s.scan_visor);
    assert_eq!(s.missiles, 5);
    assert_eq!(s.energy_tanks, 2);
    assert_eq!(s.power_bombs, 0);
    assert!(s.morph_ball);
    assert!(s.flamethrower);
    assert!(!s.space_jump);
    assert!(StartingItems::from_u64(0).is_empty());
    assert!(StartingItems::from_u64(1 << 36).is_empty());
}

#[test]
fn merged_starting_items_add_counts_up_to_their_caps() {
    let a = StartingItems::from_u64((200 << 1) | (10 << 9) | (1 << 17));
    let b = StartingItems::from_u64((55 << 1) | (5 << 9) | (3 << 13) | 1);
    let m = StartingItems::merge(a, b);
    assert_eq!(m.missiles, 250);
    assert_eq!(m.energy_tanks, 14);
    assert_eq!(m.power_bombs, 3);
    assert!(m.wave);
    assert!(m.scan_visor);
    assert_eq!(StartingItems::merge(a, b), StartingItems::merge(b, a));
    assert_eq!(StartingItems::merge(a, StartingItems::from_u64(0)), a);
}

#[test]
fn worlds_and_their_names() {
    let all = World::iter();
    assert_eq!(all.len(), 7);
    assert_eq!(all[0], World::FrigateOrpheon);
    assert_eq!(World::PhazonMines.to_pak_str(), "metroid5.pak");
    assert_eq!(World::from_pak("Metroid2.pak"), Some(World::ChozoRuins));
    assert_eq!(World::from_pak("Metroid9.pak"), None);
    assert_eq!(World::TallonOverworld.mlvl(), 0x39f2de28);
    assert_eq!(World::ImpactCrater.to_str(), "Crater, Impact");
    assert_eq!(World::ImpactCrater.to_json_key(), "Impact Crater");
    assert_eq!(World::from_json_key("  phazon MINES "), World::PhazonMines);
    assert_eq!(World::find_json_key("Mines, Phazon"), None);
}

#[test]
fn pickup_kinds_by_name_and_number() {
    let all = PickupType::iter();
    assert_eq!(all.len(), 42);
    for (i, t) in all.iter().enumerate() {
        assert_eq!(t.kind(), i as u32);
    }
    assert_eq!(PickupType::from_str("  super MISSILE"), PickupType::SuperMissile);
    assert_eq!(PickupType::find("Missile"), Some(PickupType::Missile));
    assert_eq!(PickupType::find("Missiles"), None);
    assert_eq!(PickupType::Missile.name(), "Missile");
    assert_eq!(PickupType::Missile.scan_strg(), 0xDEAF0036 + 4);
    assert_eq!(PickupType::Nothing.scan(), 0xDEAF0068 + 41);
    assert_eq!(PickupType::PowerBeam.hudmemo_strg(), 0xDEAF009A);
}

#[test]
fn pickup_models_by_name_and_kind() {
    assert_eq!(PickupModel::iter().len(), 39);
    assert_eq!(PickupModel::from_str("Shiny Missile"), Some(PickupModel::ShinyMissile));
    assert_eq!(PickupModel::from_str("x-ray visor"), Some(PickupModel::Visor));
    assert_eq!(PickupModel::from_str("Thermal"), Some(PickupModel::Visor));
    assert_eq!(PickupModel::from_str("Unknown Thing"), None);
    assert_eq!(PickupModel::from_type(PickupType::ScanVisor), PickupModel::Visor);
    assert_eq!(PickupModel::from_type(PickupType::Missile), PickupModel::Missile);
    assert_eq!(PickupModel::Missile.name(), "Missile");
}

#[test]
fn elevators_by_number_and_name() {
    let all = Elevator::iter();
    assert_eq!(all.len(), 20);
    assert_eq!(Elevator::from_u32(0), Some(Elevator::ChozoRuinsWestMainPlaza));
    assert_eq!(Elevator::from_u32(20), None);
    assert_eq!(
        Elevator::from_str("chozo ruins west (main plaza)"),
        Some(Elevator::ChozoRuinsWestMainPlaza)
    );
    assert_eq!(Elevator::from_str("ChozoRuinsWest(MainPlaza)"), Some(Elevator::ChozoRuinsWestMainPlaza));
    assert_eq!(Elevator::from_str("nowhere"), None);
    let data = Elevator::ChozoRuinsNorthSunTower.elevator_data();
    assert_eq!(data.mlvl, 0x83f6ff6f);
    assert_eq!(data.mrea, 0x8316edf5);
    assert_eq!(data.mrea_idx, 24);
}

#[test]
fn spawn_rooms() {
    let landing = SpawnRoom::LandingSite.spawn_room_data();
    assert_eq!(landing.name, "Landing Site");
    assert_eq!(landing.mrea, 0xb2701146);
    assert_eq!(SpawnRoom::default(), SpawnRoom::FrigateExteriorDockingHangar);
    let e = SpawnRoom::from_elevator(Elevator::ChozoRuinsWestMainPlaza);
    assert!(e.is_elevator(Elevator::ChozoRuinsWestMainPlaza));
    assert!(!SpawnRoom::LandingSite.is_elevator(Elevator::ChozoRuinsWestMainPlaza));
    let d = e.spawn_room_data();
    assert_eq!(d.mrea, 0x3e6b2bb7);
    assert_eq!(d.pak_name, "Metroid2.pak");
    assert_eq!(SpawnRoom::from_u32(20), Some(SpawnRoom::LandingSite));
}

#[test]
fn fresh_instance_ids_count_up() {
    let mut ps = PatcherState::new();
    assert_eq!(ps.fresh_instance_id(), 0xDEADBABE);
    assert_eq!(ps.fresh_instance_id(), 0xDEADBABF);
}

fn no_tweaks() -> CtwkConfig {
    CtwkConfig {
        easy_lava_escape: None,
        move_while_scan: None,
        ice_break_jump_count: None,
        coyote_frames: None,
        move_during_free_look: None,
        recenter_after_freelook: None,
        toggle_free_look: None,
        two_buttons_for_free_look: None,
        disable_dash: None,
        falling_space_jump: None,
        impulse_space_jump: None,
    }
}

fn empty_options() -> PatchOptions {
    PatchOptions {
        input_iso: None,
        output_iso: None,
        force_vanilla_layout: None,
        seed: None,
        qol_game_breaking: None,
        qol_cosmetic: None,
        qol_cutscenes: None,
        qol_pickup_scans: None,
        map_default_state: None,
        artifact_hint_behavior: None,
        automatic_crash_screen: None,
        quickplay: None,
        quiet: None,
        starting_room: None,
        starting_memo: None,
        warp_to_start: None,
        nonvaria_heat_damage: None,
        staggered_suit_damage: None,
        auto_enabled_elevators: None,
        multiworld_dol_patches: None,
        update_hint_state_replacement: None,
        starting_items: None,
        item_loss_items: None,
        etank_capacity: None,
        item_max_capacity: None,
        phazon_elite_without_dynamo: None,
        main_plaza_door: None,
        backwards_labs: None,
        backwards_frigate: None,
        backwards_upper_mines: None,
        backwards_lower_mines: None,
        game_banner: None,
        comment: None,
        main_menu_message: None,
        credits_string: None,
        level_data: Vec::new(),
        artifact_hints: None,
        extern_assets_dir: None,
        artifact_temple_layer_overrides: None,
        tweaks: no_tweaks(),
    }
}

#[test]
fn options_left_out_take_their_defaults() {
    let s = empty_options().settle().unwrap();
    assert_eq!(s.input_iso_path, "prime.iso");
    assert_eq!(s.output_iso_path, "prime_out.iso");
    assert_eq!(s.iso_format, IsoFormat::Iso);
    assert_eq!(s.seed, 123);
    assert_eq!(s.artifact_hint_behavior, ArtifactHintBehavior::All);
    assert_eq!(s.map_default_state, MapState::Default);
    assert_eq!(s.qol_cutscenes, CutsceneMode::Original);
    assert!(s.qol_game_breaking && s.qol_cosmetic && s.qol_pickup_scans);
    assert_eq!(s.starting_room, "Tallon:Landing Site");
    assert_eq!(s.starting_items, StartingItems::from_u64(1));
    assert_eq!(s.etank_capacity, 100);
    assert_eq!(s.main_menu_message, "randomprime");
    assert!(s.game_banner.game_name.is_none());
    assert!(s.item_max_capacity.is_empty());
}

#[test]
fn vanilla_layout_overrides_some_options() {
    let mut o = empty_options();
    o.force_vanilla_layout = Some(true);
    o.qol_cosmetic = Some(true);
    o.starting_room = Some("Chozo:Main Plaza".to_string());
    o.output_iso = Some("out.gcz".to_string());
    let s = o.settle().unwrap();
    assert!(!s.qol_cosmetic);
    assert!(s.qol_game_breaking);
    assert_eq!(s.starting_room, "Frigate:Exterior Docking Hangar");
    assert_eq!(s.starting_items, StartingItems::from_u64(2188378143));
    assert_eq!(s.main_menu_message, "");
    assert_eq!(s.credits_string, Some(String::new()));
    assert_eq!(s.iso_format, IsoFormat::Gcz);
}

#[test]
fn options_are_read_without_regard_to_case_and_spaces() {
    let mut o = empty_options();
    o.artifact_hint_behavior = Some(" None ".to_string());
    o.map_default_state = Some("VISITED".to_string());
    o.qol_cutscenes = Some("Major".to_string());
    o.item_max_capacity = Some(vec![("missile".to_string(), 5)]);
    o.game_banner = Some(GameBanner::default());
    let s = o.settle().unwrap();
    assert_eq!(s.artifact_hint_behavior, ArtifactHintBehavior::NoHints);
    assert_eq!(s.map_default_state, MapState::Visited);
    assert_eq!(s.qol_cutscenes, CutsceneMode::Major);
    assert_eq!(s.item_max_capacity, vec![(PickupType::Missile, 5)]);
    o.item_max_capacity = Some(vec![
        ("missile".to_string(), 5),
        ("Power Bomb".to_string(), 8),
        (" MISSILE ".to_string(), 250),
    ]);
    let s = o.settle().unwrap();
    assert_eq!(s.item_max_capacity, vec![(PickupType::Missile, 250), (PickupType::PowerBomb, 8)]);
    assert_eq!(MapState::Visible.to_string(), "Visible");
}

#[test]
fn refused_options() {
    let mut o = empty_options();
    o.artifact_hint_behavior = Some("some".to_string());
    match o.settle() {
        Err(ConfigError::UnhandledArtifactHintBehavior(s)) => assert_eq!(s, "some"),
        _ => panic!("expected the artifact hint behavior to be refused"),
    }
    let mut o = empty_options();
    o.map_default_state = Some("hidden".to_string());
    match o.settle() {
        Err(ConfigError::UnhandledMapDefaultState(s)) => assert_eq!(s, "hidden"),
        _ => panic!("expected the map state to be refused"),
    }
    let mut o = empty_options();
    o.qol_cutscenes = Some("skip everything".to_string());
    assert!(o.try_settle().is_none());
    let mut o = empty_options();
    o.item_max_capacity = Some(vec![("Missiles".to_string(), 5)]);
    assert!(o.try_settle().is_none());
    assert!(empty_options().try_settle().unwrap().is_ok());
}

#[test]
fn image_format_follows_the_extension() {
    assert_eq!(iso_format_for("a/b/prime.gcz"), IsoFormat::Gcz);
    assert_eq!(iso_format_for("prime.ciso"), IsoFormat::Ciso);
    assert_eq!(iso_format_for("prime.iso"), IsoFormat::Iso);
    assert_eq!(iso_format_for("gcz"), IsoFormat::Iso);
}

static TALLON_ROOMS: [RoomInfo; 2] = [
    RoomInfo { room_id: 0xb2701146, name: "Landing Site", name_id: 0, mapa_id: 0, objects_to_remove: &[] },
    RoomInfo { room_id: 0x1234, name: "Gully", name_id: 0, mapa_id: 0, objects_to_remove: &[] },
];
static MINES_ROOMS: [RoomInfo; 1] =
    [RoomInfo { room_id: 0x5678, name: "Main Quarry", name_id: 0, mapa_id: 0, objects_to_remove: &[] }];
static ROOM_TABLE: [(&str, &[RoomInfo]); 2] = [("Metroid4.pak", &TALLON_ROOMS), ("metroid5.pak", &MINES_ROOMS)];
static BAD_TABLE: [(&str, &[RoomInfo]); 2] = [("Metroid9.pak", &MINES_ROOMS), ("Metroid4.pak", &TALLON_ROOMS)];

#[test]
fn destinations_name_rooms_elevators_and_endings() {
    let d = SpawnRoomData::from_str("Tallon:Landing Site", &ROOM_TABLE);
    assert_eq!(d.pak_name, "Metroid4.pak");
    assert_eq!(d.mlvl, 0x39f2de28);
    assert_eq!(d.mrea, 0xb2701146);
    assert_eq!(d.mrea_idx, 0);
    assert_eq!(d.room_id, 0);
    assert_eq!(d.name, "Landing Site");
    let g = SpawnRoomData::find_destination("  TALLON : gully ", &ROOM_TABLE).unwrap();
    assert_eq!(g.mrea_idx, 1);
    assert_eq!(g.mrea, 0x1234);
    let m = SpawnRoomData::find_destination("mines:main quarry", &ROOM_TABLE).unwrap();
    assert_eq!(m.pak_name, "metroid5.pak");
    assert_eq!(m.mlvl, 0xb1ac4d65);
    let c = SpawnRoomData::from_str("Credits", &ROOM_TABLE);
    assert_eq!(c.name, "End of Game");
    let f = SpawnRoomData::from_str("frigate", &ROOM_TABLE);
    assert_eq!(f.pak_name, "Metroid1.pak");
    let e = SpawnRoomData::from_str("Chozo Ruins West (Main Plaza)", &ROOM_TABLE);
    assert_eq!(e.mrea, 0x3e6b2bb7);
}

#[test]
fn destinations_that_name_no_place() {
    assert!(SpawnRoomData::find_destination("nowhere", &ROOM_TABLE).is_none());
    assert!(SpawnRoomData::find_destination("tallon:gully:extra", &ROOM_TABLE).is_none());
    assert!(SpawnRoomData::find_destination("chozo:landing site", &ROOM_TABLE).is_none());
    assert!(SpawnRoomData::find_destination("tallon:landing site", &BAD_TABLE).is_none());
}

#[test]
fn level_data_hints_and_assets_dir_carry_over() {
    let mut o = empty_options();
    o.level_data = vec![(
        "Chozo Ruins".to_string(),
        LevelConfig {
            transports: vec![("a".to_string(), "b".to_string())],
            rooms: vec![(
                "Main Plaza".to_string(),
                RoomConfig {
                    pickups: Some(vec![PickupConfig {
                        pickup_type: "Missile".to_string(),
                        curr_increase: Some(5),
                        max_increase: None,
                        model: None,
                        scan_text: Some("hi".to_string()),
                        hudmemo_text: None,
                        respawn: Some(true),
                        modal_hudmemo: None,
                    }]),
                },
            )],
        },
    )];
    o.artifact_hints = Some(vec![("Wild".to_string(), "here".to_string())]);
    o.extern_assets_dir = Some("assets".to_string());
    o.artifact_temple_layer_overrides = Some(vec![("Strength".to_string(), true)]);
    o.tweaks.coyote_frames = Some(4);
    o.tweaks.disable_dash = Some(true);
    let s = o.settle().unwrap();
    assert_eq!(s.artifact_temple_layer_overrides, Some(vec![("Strength".to_string(), true)]));
    assert_eq!(s.ctwk_config.coyote_frames, Some(4));
    assert_eq!(s.ctwk_config.disable_dash, Some(true));
    assert_eq!(s.level_data.len(), 1);
    assert_eq!(s.level_data[0].0, "Chozo Ruins");
    assert_eq!(s.level_data[0].1.transports, vec![("a".to_string(), "b".to_string())]);
    let pickups = s.level_data[0].1.rooms[0].1.pickups.as_ref().unwrap();
    assert_eq!(pickups[0].pickup_type, "Missile");
    assert_eq!(pickups[0].curr_increase, Some(5));
    assert_eq!(pickups[0].scan_text.as_deref(), Some("hi"));
    assert_eq!(s.artifact_hints, Some(vec![("Wild".to_string(), "here".to_string())]));
    assert_eq!(s.extern_assets_dir.as_deref(), Some("assets"));
}

#[test]
fn every_world_is_found_again_by_its_layout_name() {
    for w in World::iter() {
        assert_eq!(World::from_json_key(w.to_json_key()), w);
        assert_eq!(World::find_json_key(&format!("  {} ", w.to_json_key().to_uppercase())), Some(w));
    }
    assert_eq!(World::find_json_key("Mines, Phazon"), None);
}

#[test]
fn every_elevator_name_leads_back_to_its_elevator() {
    for e in Elevator::iter() {
        let name = e.elevator_data().name;
        assert_eq!(Elevator::from_str(name), Some(e));
        let shouted = format!("  {} ", name.to_uppercase());
        assert_eq!(Elevator::from_str(&shouted), Some(e));
    }
}

#[test]
fn every_pickup_kind_and_model_name_leads_back() {
    for t in PickupType::iter() {
        assert_eq!(PickupType::from_str(t.name()), t);
        assert_eq!(PickupType::from_str(&format!(" {} ", t.name().to_lowercase())), t);
        let expected = PickupModel::from_str(t.name()).unwrap_or(PickupModel::Nothing);
        assert_eq!(PickupModel::from_type(t), expected);
    }
    for m in PickupModel::iter() {
        assert_eq!(PickupModel::from_str(m.name()), Some(m));
        assert_eq!(PickupModel::from_str(&m.name().to_uppercase()), Some(m));
    }
}

#[test]
fn every_world_key_leads_back_to_its_world() {
    for w in World::iter() {
        assert_eq!(World::from_json_key(w.to_json_key()), w);
        assert_eq!(World::find_json_key(&w.to_json_key().to_lowercase()), Some(w));
    }
}

#[test]
fn every_elevator_stands_in_the_world_of_its_pak_and_mlvl() {
    for e in Elevator::iter() {
        let data = e.elevator_data();
        assert_eq!(World::from_pak(data.pak_name).map(|w| w.mlvl()), Some(data.mlvl));
    }
    let worlds = World::iter();
    for (i, a) in worlds.iter().enumerate() {
        for (j, b) in worlds.iter().enumerate() {
            assert_eq!(i == j, a.mlvl() == b.mlvl());
        }
    }
    assert_eq!(World::ChozoRuins.mlvl(), 0x83f6ff6f);
}
