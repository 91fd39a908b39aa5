//! The patcher's settings: the options a profile or the command line gives,
//! and the settings they come to once defaults are filled in.
use vstd::prelude::*;
use crate::pickup_meta::{
    PickupType, lemma_type_of, spec_first_type, spec_pickup_types, spec_type_name_matches, spec_type_of,
};
use crate::starting_items::{StartingItems, spec_from_u64};
use crate::text::{
    lemma_lowercase_word,
    lower_trimmed, spec_ascii_lowercase, spec_ends_with, spec_lowercase, spec_trim, str_ends_with, str_eq, trimmed_lower,
};

verus! {

/// The format of the patched disc image.
#[derive(Clone, Copy, Debug, PartialEq, Eq, Structural)]
pub enum IsoFormat {
    Iso,
    Gcz,
    Ciso,
}

/// Which artifact hints the Artifact Temple gives.
#[derive(Clone, Copy, Debug, PartialEq, Eq, Structural)]
pub enum ArtifactHintBehavior {
    Default,
    NoHints,
    All,
}

/// How the map of each world starts out.
#[derive(Clone, Copy, Debug, PartialEq, Eq, Structural)]
pub enum MapState {
    Default,
    Visible,
    Visited,
}

impl MapState {
    /// The state's name.
    pub fn to_string(&self) -> (r: String)
        ensures
            r@ == spec_map_state_name(*self),
    {
        match self {
            MapState::Default => "Default".to_owned(),
            MapState::Visible => "Visible".to_owned(),
            MapState::Visited => "Visited".to_owned(),
        }
    }
}

/// A map state's name.
pub open spec fn spec_map_state_name(m: MapState) -> Seq<char> {
    match m {
        MapState::Default => "Default"@,
        MapState::Visible => "Visible"@,
        MapState::Visited => "Visited"@,
    }
}

/// Which cutscenes are shortened or skipped.
#[derive(Clone, Copy, Debug, PartialEq, Eq, Structural)]
pub enum CutsceneMode {
    Original,
    Competitive,
    Minor,
    Major,
}

/// The texts of the disc's banner; each one left out keeps the game's own.
#[derive(Clone, Debug)]
pub struct GameBanner {
    pub game_name: Option<String>,
    pub game_name_full: Option<String>,
    pub developer: Option<String>,
    pub developer_full: Option<String>,
    pub description: Option<String>,
}

impl Default for GameBanner {
    /// A banner that keeps every text of the game's own.
    fn default() -> (r: Self)
        ensures
            r.game_name is None,
            r.game_name_full is None,
            r.developer is None,
            r.developer_full is None,
            r.description is None,
    {
        GameBanner { game_name: None, game_name_full: None, developer: None, developer_full: None, description: None }
    }
}

/// What a profile says of one pickup of a room. The place it is moved to is
/// left to the callers that place models, which keep it as they read it.
#[derive(Clone, Debug)]
pub struct PickupConfig {
    pub pickup_type: String,
    pub curr_increase: Option<i32>,
    pub max_increase: Option<i32>,
    pub model: Option<String>,
    pub scan_text: Option<String>,
    pub hudmemo_text: Option<String>,
    pub respawn: Option<bool>,
    pub modal_hudmemo: Option<bool>,
}

/// What a profile says of one room: its pickups, in their order.
#[derive(Clone, Debug)]
pub struct RoomConfig {
    pub pickups: Option<Vec<PickupConfig>>,
}

/// What a profile says of one world: where its elevators lead, and its
/// rooms by name, each list in the order it was read.
#[derive(Clone, Debug)]
pub struct LevelConfig {
    pub transports: Vec<(String, String)>,
    pub rooms: Vec<(String, RoomConfig)>,
}

/// The tweaks of the game's settings that are not floating-point numbers;
/// the others are left to the callers that read them.
#[derive(Clone, Copy, Debug)]
pub struct CtwkConfig {
    pub easy_lava_escape: Option<bool>,
    pub move_while_scan: Option<bool>,
    pub ice_break_jump_count: Option<u32>,
    pub coyote_frames: Option<u32>,
    pub move_during_free_look: Option<bool>,
    pub recenter_after_freelook: Option<bool>,
    pub toggle_free_look: Option<bool>,
    pub two_buttons_for_free_look: Option<bool>,
    pub disable_dash: Option<bool>,
    pub falling_space_jump: Option<bool>,
    pub impulse_space_jump: Option<bool>,
}

/// The options a profile or the command line gives; each one left out takes
/// its default.
#[derive(Clone, Debug)]
pub struct PatchOptions {
    pub input_iso: Option<String>,
    pub output_iso: Option<String>,
    pub force_vanilla_layout: Option<bool>,
    pub seed: Option<u64>,
    pub qol_game_breaking: Option<bool>,
    pub qol_cosmetic: Option<bool>,
    pub qol_cutscenes: Option<String>,
    pub qol_pickup_scans: Option<bool>,
    pub map_default_state: Option<String>,
    pub artifact_hint_behavior: Option<String>,
    pub automatic_crash_screen: Option<bool>,
    pub quickplay: Option<bool>,
    pub quiet: Option<bool>,
    pub starting_room: Option<String>,
    pub starting_memo: Option<String>,
    pub warp_to_start: Option<bool>,
    pub nonvaria_heat_damage: Option<bool>,
    pub staggered_suit_damage: Option<bool>,
    pub auto_enabled_elevators: Option<bool>,
    pub multiworld_dol_patches: Option<bool>,
    pub update_hint_state_replacement: Option<Vec<u8>>,
    pub starting_items: Option<StartingItems>,
    pub item_loss_items: Option<StartingItems>,
    pub etank_capacity: Option<u32>,
    pub item_max_capacity: Option<Vec<(String, u32)>>,
    pub phazon_elite_without_dynamo: Option<bool>,
    pub main_plaza_door: Option<bool>,
    pub backwards_labs: Option<bool>,
    pub backwards_frigate: Option<bool>,
    pub backwards_upper_mines: Option<bool>,
    pub backwards_lower_mines: Option<bool>,
    pub game_banner: Option<GameBanner>,
    pub comment: Option<String>,
    pub main_menu_message: Option<String>,
    pub credits_string: Option<String>,
    pub level_data: Vec<(String, LevelConfig)>,
    pub artifact_hints: Option<Vec<(String, String)>>,
    pub extern_assets_dir: Option<String>,
    pub artifact_temple_layer_overrides: Option<Vec<(String, bool)>>,
    pub tweaks: CtwkConfig,
}

/// The settings the options come to.
#[derive(Clone, Debug)]
pub struct PatchSettings {
    pub input_iso_path: String,
    pub output_iso_path: String,
    pub iso_format: IsoFormat,
    pub force_vanilla_layout: bool,
    pub seed: u64,
    pub qol_game_breaking: bool,
    pub qol_cosmetic: bool,
    pub qol_cutscenes: CutsceneMode,
    pub qol_pickup_scans: bool,
    pub phazon_elite_without_dynamo: bool,
    pub main_plaza_door: bool,
    pub backwards_labs: bool,
    pub backwards_frigate: bool,
    pub backwards_upper_mines: bool,
    pub backwards_lower_mines: bool,
    pub starting_room: String,
    pub starting_memo: Option<String>,
    pub warp_to_start: bool,
    pub automatic_crash_screen: bool,
    pub etank_capacity: u32,
    pub nonvaria_heat_damage: bool,
    pub staggered_suit_damage: bool,
    pub item_max_capacity: Vec<(PickupType, u32)>,
    pub map_default_state: MapState,
    pub auto_enabled_elevators: bool,
    pub multiworld_dol_patches: bool,
    pub update_hint_state_replacement: Option<Vec<u8>>,
    pub quiet: bool,
    pub starting_items: StartingItems,
    pub item_loss_items: StartingItems,
    pub artifact_hint_behavior: ArtifactHintBehavior,
    pub suit_hue_rotate_angle: Option<i32>,
    pub quickplay: bool,
    pub game_banner: GameBanner,
    pub comment: String,
    pub main_menu_message: String,
    pub credits_string: Option<String>,
    pub level_data: Vec<(String, LevelConfig)>,
    pub artifact_hints: Option<Vec<(String, String)>>,
    pub extern_assets_dir: Option<String>,
    pub artifact_temple_layer_overrides: Option<Vec<(String, bool)>>,
    pub ctwk_config: CtwkConfig,
}

/// Why options were refused.
#[derive(Clone, Debug)]
pub enum ConfigError {
    /// The artifact hint behavior, trimmed and in lowercase, is none of
    /// "all", "none" and "default".
    UnhandledArtifactHintBehavior(String),
    /// The map state, trimmed and in lowercase, is none of "default",
    /// "visited" and "visible".
    UnhandledMapDefaultState(String),
}

/// The string an option holds, else its default.
pub open spec fn spec_or(o: Option<String>, default: Seq<char>) -> Seq<char> {
    match o {
        Some(s) => s@,
        None => default,
    }
}

/// The flag an option holds, else its default.
pub open spec fn spec_flag(o: Option<bool>, default: bool) -> bool {
    match o {
        Some(b) => b,
        None => default,
    }
}

/// The artifact hint behavior a key names, if any.
pub open spec fn spec_artifact_hint_behavior(key: Seq<char>) -> Option<ArtifactHintBehavior> {
    if key == "all"@ {
        Some(ArtifactHintBehavior::All)
    } else if key == "none"@ {
        Some(ArtifactHintBehavior::NoHints)
    } else if key == "default"@ {
        Some(ArtifactHintBehavior::Default)
    } else {
        None
    }
}

/// The map state a key names, if any.
pub open spec fn spec_map_state(key: Seq<char>) -> Option<MapState> {
    if key == "default"@ {
        Some(MapState::Default)
    } else if key == "visited"@ {
        Some(MapState::Visited)
    } else if key == "visible"@ {
        Some(MapState::Visible)
    } else {
        None
    }
}

/// The cutscene mode a key names, if any.
pub open spec fn spec_cutscene_mode(key: Seq<char>) -> Option<CutsceneMode> {
    if key == "original"@ {
        Some(CutsceneMode::Original)
    } else if key == "competitive"@ {
        Some(CutsceneMode::Competitive)
    } else if key == "minor"@ {
        Some(CutsceneMode::Minor)
    } else if key == "major"@ {
        Some(CutsceneMode::Major)
    } else {
        None
    }
}

/// The artifact hint option, trimmed and in lowercase ("all" where left out).
pub open spec fn spec_artifact_key(o: PatchOptions) -> Seq<char> {
    spec_lowercase(spec_trim(spec_or(o.artifact_hint_behavior, "all"@)))
}

/// The map state option, trimmed and in lowercase ("default" where left out).
pub open spec fn spec_map_key(o: PatchOptions) -> Seq<char> {
    spec_lowercase(spec_trim(spec_or(o.map_default_state, "default"@)))
}

/// The cutscene option, in lowercase and trimmed ("original" where left out).
pub open spec fn spec_cutscene_key(o: PatchOptions) -> Seq<char> {
    spec_trim(spec_lowercase(spec_or(o.qol_cutscenes, "original"@)))
}

/// Whether `name` names a pickup kind.
pub open spec fn spec_names_kind(name: Seq<char>) -> bool {
    exists|i: int| 0 <= i < 42 && spec_type_name_matches(name, #[trigger] spec_pickup_types()[i])
}

/// Whether every item name names a pickup kind.
pub open spec fn spec_names_known(v: Seq<(String, u32)>) -> bool {
    forall|k: int| 0 <= k < v.len() ==> spec_names_kind(#[trigger] v[k].0@)
}

/// Whether every item name of the capacity option names a pickup kind.
pub open spec fn spec_capacity_names_known(o: PatchOptions) -> bool {
    match o.item_max_capacity {
        Some(v) => spec_names_known(v@),
        None => true,
    }
}

/// Whether two optional byte strings hold the same bytes.
pub open spec fn spec_same_bytes(a: Option<Vec<u8>>, b: Option<Vec<u8>>) -> bool {
    match (a, b) {
        (Some(x), Some(y)) => x@ == y@,
        (None, None) => true,
        _ => false,
    }
}

/// Whether settling the options gives an answer: the artifact hint behavior
/// or the map state is refused, or else the cutscene mode and every item
/// name of the capacity option are known.
pub open spec fn spec_settles(o: PatchOptions) -> bool {
    spec_artifact_hint_behavior(spec_artifact_key(o)) is None || spec_map_state(spec_map_key(o)) is None
        || (spec_cutscene_mode(spec_cutscene_key(o)) is Some && spec_capacity_names_known(o))
}

/// The format a disc image path asks for: by its extension.
pub open spec fn spec_iso_format(path: Seq<char>) -> IsoFormat {
    if spec_ends_with(path, ".gcz"@) {
        IsoFormat::Gcz
    } else if spec_ends_with(path, ".ciso"@) {
        IsoFormat::Ciso
    } else {
        IsoFormat::Iso
    }
}

/// A starting item set an option holds, else the word's.
pub open spec fn spec_items_or(o: Option<StartingItems>, word: u64) -> StartingItems {
    match o {
        Some(s) => s,
        None => spec_from_u64(word),
    }
}

/// The settings are those the options come to, where neither the artifact
/// hint behavior nor the map state was refused.
pub open spec fn spec_settled(o: PatchOptions, s: PatchSettings) -> bool {
    let fv = spec_flag(o.force_vanilla_layout, false);
    &&& s.input_iso_path@ == spec_or(o.input_iso, "prime.iso"@)
    &&& s.output_iso_path@ == spec_or(o.output_iso, "prime_out.iso"@)
    &&& s.iso_format == spec_iso_format(spec_or(o.output_iso, "prime_out.iso"@))
    &&& s.force_vanilla_layout == fv
    &&& s.seed == (match o.seed {
        Some(n) => n,
        None => 123u64,
    })
    &&& Some(s.artifact_hint_behavior) == spec_artifact_hint_behavior(spec_artifact_key(o))
    &&& Some(s.map_default_state) == spec_map_state(spec_map_key(o))
    &&& Some(s.qol_cutscenes) == spec_cutscene_mode(spec_cutscene_key(o))
    &&& s.qol_game_breaking == (fv || spec_flag(o.qol_game_breaking, true))
    &&& s.qol_cosmetic == (!fv && spec_flag(o.qol_cosmetic, true))
    &&& s.qol_pickup_scans == (!fv && spec_flag(o.qol_pickup_scans, true))
    &&& s.starting_room@ == (if fv {
        "Frigate:Exterior Docking Hangar"@
    } else {
        spec_or(o.starting_room, "Tallon:Landing Site"@)
    })
    &&& s.starting_items == (if fv {
        spec_from_u64(2188378143)
    } else {
        spec_items_or(o.starting_items, 1)
    })
    &&& s.warp_to_start == (!fv && spec_flag(o.warp_to_start, false))
    &&& s.main_menu_message@ == (if fv {
        ""@
    } else {
        spec_or(o.main_menu_message, "randomprime"@)
    })
    &&& (if fv {
        s.credits_string matches Some(c) && c@ == ""@
    } else {
        s.credits_string == o.credits_string
    })
    &&& s.phazon_elite_without_dynamo == spec_flag(o.phazon_elite_without_dynamo, true)
    &&& s.main_plaza_door == spec_flag(o.main_plaza_door, true)
    &&& s.backwards_labs == spec_flag(o.backwards_labs, true)
    &&& s.backwards_frigate == spec_flag(o.backwards_frigate, true)
    &&& s.backwards_upper_mines == spec_flag(o.backwards_upper_mines, true)
    &&& s.backwards_lower_mines == spec_flag(o.backwards_lower_mines, true)
    &&& s.automatic_crash_screen == spec_flag(o.automatic_crash_screen, false)
    &&& s.quiet == spec_flag(o.quiet, false)
    &&& s.quickplay == spec_flag(o.quickplay, false)
    &&& s.suit_hue_rotate_angle is None
    &&& s.starting_memo == o.starting_memo
    &&& s.nonvaria_heat_damage == spec_flag(o.nonvaria_heat_damage, false)
    &&& s.staggered_suit_damage == spec_flag(o.staggered_suit_damage, false)
    &&& s.auto_enabled_elevators == spec_flag(o.auto_enabled_elevators, false)
    &&& s.multiworld_dol_patches == spec_flag(o.multiworld_dol_patches, false)
    &&& spec_same_bytes(s.update_hint_state_replacement, o.update_hint_state_replacement)
    &&& s.item_loss_items == spec_items_or(o.item_loss_items, 1)
    &&& s.etank_capacity == (match o.etank_capacity {
        Some(n) => n,
        None => 100u32,
    })
    &&& (match o.item_max_capacity {
        Some(v) => spec_lists_capacities(s.item_max_capacity@, spec_capacity_map(v@)),
        None => s.item_max_capacity@.len() == 0,
    })
    &&& (match o.game_banner {
        Some(b) => s.game_banner == b,
        None => s.game_banner.game_name is None && s.game_banner.game_name_full is None
            && s.game_banner.developer is None && s.game_banner.developer_full is None
            && s.game_banner.description is None,
    })
    &&& s.comment@ == spec_or(o.comment, ""@)
    &&& spec_levels_view(s.level_data@) == spec_levels_view(o.level_data@)
    &&& spec_hints_view(s.artifact_hints) == spec_hints_view(o.artifact_hints)
    &&& s.extern_assets_dir == o.extern_assets_dir
    &&& spec_overrides_view(s.artifact_temple_layer_overrides) == spec_overrides_view(o.artifact_temple_layer_overrides)
    &&& s.ctwk_config == o.tweaks
}

/// The string an option holds, else the default.
fn string_or(o: &Option<String>, default: &str) -> (r: String)
    ensures
        r@ == spec_or(*o, default@),
{
    match o {
        Some(s) => s.clone(),
        None => default.to_owned(),
    }
}

/// The flag an option holds, else the default.
fn flag_or(o: Option<bool>, default: bool) -> (r: bool)
    ensures
        r == spec_flag(o, default),
{
    match o {
        Some(b) => b,
        None => default,
    }
}

/// A copy of an optional string.
fn clone_string_option(o: &Option<String>) -> (r: Option<String>)
    ensures
        r == *o,
{
    match o {
        Some(s) => Some(s.clone()),
        None => None,
    }
}


/// A room as plain values: its pickups, if it lists any.
pub open spec fn spec_room_view(r: RoomConfig) -> Option<Seq<PickupConfig>> {
    match r.pickups {
        Some(v) => Some(v@),
        None => None,
    }
}

/// A world's part of a profile as plain values: its elevators and its rooms.
pub open spec fn spec_level_view(l: LevelConfig) -> (Seq<(Seq<char>, Seq<char>)>, Seq<(Seq<char>, Option<Seq<PickupConfig>>)>) {
    (
        l.transports@.map_values(|t: (String, String)| (t.0@, t.1@)),
        l.rooms@.map_values(|r: (String, RoomConfig)| (r.0@, spec_room_view(r.1))),
    )
}

/// The worlds of a profile as plain values.
pub open spec fn spec_levels_view(v: Seq<(String, LevelConfig)>) -> Seq<(Seq<char>, (Seq<(Seq<char>, Seq<char>)>, Seq<(Seq<char>, Option<Seq<PickupConfig>>)>))> {
    v.map_values(|l: (String, LevelConfig)| (l.0@, spec_level_view(l.1)))
}

/// The artifact hints as plain values.
pub open spec fn spec_hints_view(h: Option<Vec<(String, String)>>) -> Option<Seq<(Seq<char>, Seq<char>)>> {
    match h {
        Some(v) => Some(v@.map_values(|t: (String, String)| (t.0@, t.1@))),
        None => None,
    }
}

/// A copy of a pickup's part of a profile.
fn clone_pickup(p: &PickupConfig) -> (r: PickupConfig)
    ensures
        r == *p,
{
    PickupConfig {
        pickup_type: p.pickup_type.clone(),
        curr_increase: p.curr_increase,
        max_increase: p.max_increase,
        model: clone_string_option(&p.model),
        scan_text: clone_string_option(&p.scan_text),
        hudmemo_text: clone_string_option(&p.hudmemo_text),
        respawn: p.respawn,
        modal_hudmemo: p.modal_hudmemo,
    }
}

/// A copy of a room's part of a profile.
fn clone_room(r: &RoomConfig) -> (c: RoomConfig)
    ensures
        spec_room_view(c) == spec_room_view(*r),
{
    match &r.pickups {
        Some(v) => {
            let mut out: Vec<PickupConfig> = Vec::new();
            let mut i: usize = 0;
            while i < v.len()
                invariant
                    0 <= i <= v@.len(),
                    out@ == v@.take(i as int),
                decreases v@.len() - i,
            {
                out.push(clone_pickup(&v[i]));
                i = i + 1;
                assert(out@ =~= v@.take(i as int));
            }
            assert(v@.take(i as int) =~= v@);
            RoomConfig { pickups: Some(out) }
        },
        None => RoomConfig { pickups: None },
    }
}

/// A copy of a list of pairs of strings.
fn clone_pairs(v: &Vec<(String, String)>) -> (r: Vec<(String, String)>)
    ensures
        r@.map_values(|t: (String, String)| (t.0@, t.1@)) == v@.map_values(|t: (String, String)| (t.0@, t.1@)),
{
    let mut out: Vec<(String, String)> = Vec::new();
    let mut i: usize = 0;
    while i < v.len()
        invariant
            0 <= i <= v@.len(),
            out@ == v@.take(i as int),
        decreases v@.len() - i,
    {
        out.push((v[i].0.clone(), v[i].1.clone()));
        i = i + 1;
        assert(out@ =~= v@.take(i as int));
    }
    assert(v@.take(i as int) =~= v@);
    out
}

/// A copy of the worlds of a profile.
fn clone_levels(v: &Vec<(String, LevelConfig)>) -> (r: Vec<(String, LevelConfig)>)
    ensures
        spec_levels_view(r@) == spec_levels_view(v@),
{
    let mut out: Vec<(String, LevelConfig)> = Vec::new();
    let mut i: usize = 0;
    while i < v.len()
        invariant
            0 <= i <= v@.len(),
            out@.len() == i,
            forall|k: int| 0 <= k < i ==> (#[trigger] out@[k]).0@ == v@[k].0@ && spec_level_view(out@[k].1)
                == spec_level_view(v@[k].1),
        decreases v@.len() - i,
    {
        let level = &v[i].1;
        let mut rooms: Vec<(String, RoomConfig)> = Vec::new();
        let mut j: usize = 0;
        while j < level.rooms.len()
            invariant
                0 <= j <= level.rooms@.len(),
                rooms@.len() == j,
                forall|k: int| 0 <= k < j ==> (#[trigger] rooms@[k]).0@ == level.rooms@[k].0@ && spec_room_view(
                    rooms@[k].1,
                ) == spec_room_view(level.rooms@[k].1),
            decreases level.rooms@.len() - j,
        {
            rooms.push((level.rooms[j].0.clone(), clone_room(&level.rooms[j].1)));
            j = j + 1;
        }
        let copy = LevelConfig { transports: clone_pairs(&level.transports), rooms };
        assert(copy.rooms@.map_values(|r: (String, RoomConfig)| (r.0@, spec_room_view(r.1)))
            =~= level.rooms@.map_values(|r: (String, RoomConfig)| (r.0@, spec_room_view(r.1))));
        out.push((v[i].0.clone(), copy));
        i = i + 1;
    }
    assert(spec_levels_view(out@) =~= spec_levels_view(v@));
    out
}

/// The layer overrides as plain values.
pub open spec fn spec_overrides_view(h: Option<Vec<(String, bool)>>) -> Option<Seq<(Seq<char>, bool)>> {
    match h {
        Some(v) => Some(v@.map_values(|t: (String, bool)| (t.0@, t.1))),
        None => None,
    }
}

/// A copy of the layer overrides.
fn clone_overrides(h: &Option<Vec<(String, bool)>>) -> (r: Option<Vec<(String, bool)>>)
    ensures
        spec_overrides_view(r) == spec_overrides_view(*h),
{
    match h {
        Some(v) => {
            let mut out: Vec<(String, bool)> = Vec::new();
            let mut i: usize = 0;
            while i < v.len()
                invariant
                    0 <= i <= v@.len(),
                    out@ == v@.take(i as int),
                decreases v@.len() - i,
            {
                out.push((v[i].0.clone(), v[i].1));
                i = i + 1;
                assert(out@ =~= v@.take(i as int));
            }
            assert(v@.take(i as int) =~= v@);
            Some(out)
        },
        None => None,
    }
}

/// A copy of the artifact hints.
fn clone_hints(h: &Option<Vec<(String, String)>>) -> (r: Option<Vec<(String, String)>>)
    ensures
        spec_hints_view(r) == spec_hints_view(*h),
{
    match h {
        Some(v) => Some(clone_pairs(v)),
        None => None,
    }
}

/// A copy of optional bytes.
fn clone_bytes_option(o: &Option<Vec<u8>>) -> (r: Option<Vec<u8>>)
    ensures
        spec_same_bytes(r, *o),
{
    match o {
        Some(v) => {
            let mut c: Vec<u8> = Vec::new();
            let mut i: usize = 0;
            while i < v.len()
                invariant
                    0 <= i <= v@.len(),
                    c@ == v@.take(i as int),
                decreases v@.len() - i,
            {
                c.push(v[i]);
                i = i + 1;
                assert(c@ =~= v@.take(i as int));
            }
            assert(c@ =~= v@);
            Some(c)
        },
        None => None,
    }
}

/// A copy of a banner.
fn clone_banner(b: &GameBanner) -> (r: GameBanner)
    ensures
        r == *b,
{
    GameBanner {
        game_name: clone_string_option(&b.game_name),
        game_name_full: clone_string_option(&b.game_name_full),
        developer: clone_string_option(&b.developer),
        developer_full: clone_string_option(&b.developer_full),
        description: clone_string_option(&b.description),
    }
}

/// The artifact hint behavior a key names, if any.
fn artifact_hint_behavior_of(key: &str) -> (r: Option<ArtifactHintBehavior>)
    ensures
        r == spec_artifact_hint_behavior(key@),
{
    if str_eq(key, "all") {
        Some(ArtifactHintBehavior::All)
    } else if str_eq(key, "none") {
        Some(ArtifactHintBehavior::NoHints)
    } else if str_eq(key, "default") {
        Some(ArtifactHintBehavior::Default)
    } else {
        None
    }
}

/// The map state a key names, if any.
fn map_state_of(key: &str) -> (r: Option<MapState>)
    ensures
        r == spec_map_state(key@),
{
    if str_eq(key, "default") {
        Some(MapState::Default)
    } else if str_eq(key, "visited") {
        Some(MapState::Visited)
    } else if str_eq(key, "visible") {
        Some(MapState::Visible)
    } else {
        None
    }
}

/// The cutscene mode a key names, if any.
fn cutscene_mode_of(key: &str) -> (r: Option<CutsceneMode>)
    ensures
        r == spec_cutscene_mode(key@),
{
    if str_eq(key, "original") {
        Some(CutsceneMode::Original)
    } else if str_eq(key, "competitive") {
        Some(CutsceneMode::Competitive)
    } else if str_eq(key, "minor") {
        Some(CutsceneMode::Minor)
    } else if str_eq(key, "major") {
        Some(CutsceneMode::Major)
    } else {
        None
    }
}

/// The format a disc image path asks for.
pub fn iso_format_for(path: &str) -> (r: IsoFormat)
    ensures
        r == spec_iso_format(path@),
{
    if str_ends_with(path, ".gcz") {
        IsoFormat::Gcz
    } else if str_ends_with(path, ".ciso") {
        IsoFormat::Ciso
    } else {
        IsoFormat::Iso
    }
}

/// The capacity each named pickup kind gets: each entry sets its kind's
/// capacity, a later entry for the same kind replacing an earlier one.
pub open spec fn spec_capacity_map(v: Seq<(String, u32)>) -> Map<PickupType, u32>
    decreases v.len(),
{
    if v.len() == 0 {
        Map::empty()
    } else {
        spec_capacity_map(v.drop_last()).insert(spec_type_of(v.last().0@), v.last().1)
    }
}

/// Whether `r` lists the capacities `m` gives, each kind once.
pub open spec fn spec_lists_capacities(r: Seq<(PickupType, u32)>, m: Map<PickupType, u32>) -> bool {
    &&& forall|j: int, k: int| 0 <= j < k < r.len() ==> r[j].0 != r[k].0
    &&& forall|k: int| 0 <= k < r.len() ==> m.dom().contains(#[trigger] r[k].0) && m[r[k].0] == r[k].1
    &&& forall|t: PickupType| #[trigger] m.dom().contains(t) ==> exists|k: int| 0 <= k < r.len() && r[k].0 == t
}

/// The capacities the named pickup kinds get, each kind once.
fn item_capacities(v: &Vec<(String, u32)>) -> (r: Vec<(PickupType, u32)>)
    requires
        spec_names_known(v@),
    ensures
        spec_lists_capacities(r@, spec_capacity_map(v@)),
{
    let mut r: Vec<(PickupType, u32)> = Vec::new();
    let mut k: usize = 0;
    proof {
        assert(v@.take(0) =~= Seq::<(String, u32)>::empty());
    }
    while k < v.len()
        invariant
            0 <= k <= v@.len(),
            spec_names_known(v@),
            spec_lists_capacities(r@, spec_capacity_map(v@.take(k as int))),
        decreases v@.len() - k,
    {
        assert(spec_names_kind(v@[k as int].0@));
        let t = PickupType::from_str(v[k].0.as_str());
        let cap = v[k].1;
        proof {
            lemma_type_of(v@[k as int].0@, t);
            assert(v@.take(k + 1).drop_last() =~= v@.take(k as int));
            assert(v@.take(k + 1).last() == v@[k as int]);
        }
        let ghost m = spec_capacity_map(v@.take(k as int));
        let ghost m2 = m.insert(t, cap);
        let ghost before = r@;
        proof {
            assert(spec_capacity_map(v@.take(k + 1)) == m2);
        }
        let mut i: usize = 0;
        let mut at: Option<usize> = None;
        while i < r.len()
            invariant
                0 <= i <= r@.len(),
                r@ == before,
                match at {
                    Some(x) => x < r@.len() && r@[x as int].0 == t,
                    None => forall|j: int| 0 <= j < i ==> r@[j].0 != t,
                },
            decreases r@.len() - i,
        {
            if at.is_none() && r[i].0 == t {
                at = Some(i);
            }
            i = i + 1;
        }
        match at {
            Some(x) => {
                r.set(x, (t, cap));
                proof {
                    assert forall|j: int| 0 <= j < r@.len() && j != x implies r@[j].0 != t by {
                        if j < x {
                            assert(before[j].0 != before[x as int].0);
                        } else {
                            assert(before[x as int].0 != before[j].0);
                        }
                    }
                    assert forall|t2: PickupType| #[trigger] m2.dom().contains(t2) implies exists|j: int|
                        0 <= j < r@.len() && r@[j].0 == t2 by {
                        if t2 == t {
                            assert(r@[x as int].0 == t2);
                        } else {
                            let j = choose|j: int| 0 <= j < before.len() && before[j].0 == t2;
                            assert(r@[j].0 == t2);
                        }
                    }
                }
            },
            None => {
                r.push((t, cap));
                proof {
                    assert forall|t2: PickupType| #[trigger] m2.dom().contains(t2) implies exists|j: int|
                        0 <= j < r@.len() && r@[j].0 == t2 by {
                        if t2 == t {
                            assert(r@[before.len() as int].0 == t2);
                        } else {
                            let j = choose|j: int| 0 <= j < before.len() && before[j].0 == t2;
                            assert(r@[j].0 == t2);
                        }
                    }
                }
            },
        }
        k = k + 1;
    }
    proof {
        assert(v@.take(v@.len() as int) =~= v@);
    }
    r
}

impl PatchOptions {
    /// Settles the options: fills in the defaults, lets a forced vanilla
    /// layout override what it concerns, and reads the named modes. It fails
    /// where the artifact hint behavior, else the map state, names none of
    /// its modes.
    pub fn settle(&self) -> (r: Result<PatchSettings, ConfigError>)
        requires
            spec_settles(*self),
        ensures
            spec_artifact_hint_behavior(spec_artifact_key(*self)) is None ==> (r matches Err(
                ConfigError::UnhandledArtifactHintBehavior(k),
            ) && k@ == spec_artifact_key(*self)),
            spec_artifact_hint_behavior(spec_artifact_key(*self)) is Some && spec_map_state(
                spec_map_key(*self),
            ) is None ==> (r matches Err(ConfigError::UnhandledMapDefaultState(k)) && k@ == spec_map_key(
                *self,
            )),
            spec_artifact_hint_behavior(spec_artifact_key(*self)) is Some && spec_map_state(
                spec_map_key(*self),
            ) is Some ==> (r matches Ok(s) && spec_settled(*self, s)),
    {
        let input_iso_path = string_or(&self.input_iso, "prime.iso");
        let output_iso_path = string_or(&self.output_iso, "prime_out.iso");
        let iso_format = iso_format_for(output_iso_path.as_str());
        let force_vanilla_layout = flag_or(self.force_vanilla_layout, false);

        let artifact_default = string_or(&self.artifact_hint_behavior, "all");
        let artifact_key = trimmed_lower(artifact_default.as_str());
        let artifact_hint_behavior = match artifact_hint_behavior_of(artifact_key.as_str()) {
            Some(b) => b,
            None => {
                return Err(ConfigError::UnhandledArtifactHintBehavior(artifact_key));
            },
        };

        let map_default = string_or(&self.map_default_state, "default");
        let map_key = trimmed_lower(map_default.as_str());
        let map_default_state = match map_state_of(map_key.as_str()) {
            Some(m) => m,
            None => {
                return Err(ConfigError::UnhandledMapDefaultState(map_key));
            },
        };

        assert(spec_capacity_names_known(*self));
        let item_max_capacity = match &self.item_max_capacity {
            Some(v) => item_capacities(v),
            None => Vec::new(),
        };

        let qol_game_breaking = if force_vanilla_layout {
            true
        } else {
            flag_or(self.qol_game_breaking, true)
        };
        let qol_cosmetic = if force_vanilla_layout {
            false
        } else {
            flag_or(self.qol_cosmetic, true)
        };
        let qol_pickup_scans = if force_vanilla_layout {
            false
        } else {
            flag_or(self.qol_pickup_scans, true)
        };

        let cutscene_default = string_or(&self.qol_cutscenes, "original");
        let cutscene_key = lower_trimmed(cutscene_default.as_str());
        let qol_cutscenes = match cutscene_mode_of(cutscene_key.as_str()) {
            Some(c) => c,
            None => {
                proof {
                    assert(false);
                }
                CutsceneMode::Original
            },
        };

        let starting_room = if force_vanilla_layout {
            "Frigate:Exterior Docking Hangar".to_owned()
        } else {
            string_or(&self.starting_room, "Tallon:Landing Site")
        };
        let starting_items = if force_vanilla_layout {
            StartingItems::from_u64(2188378143)
        } else {
            match self.starting_items {
                Some(s) => s,
                None => StartingItems::from_u64(1),
            }
        };
        let warp_to_start = if force_vanilla_layout {
            false
        } else {
            flag_or(self.warp_to_start, false)
        };
        let main_menu_message = if force_vanilla_layout {
            "".to_owned()
        } else {
            string_or(&self.main_menu_message, "randomprime")
        };
        let credits_string = if force_vanilla_layout {
            Some("".to_owned())
        } else {
            clone_string_option(&self.credits_string)
        };
        let game_banner = match &self.game_banner {
            Some(b) => clone_banner(b),
            None => GameBanner::default(),
        };
        let item_loss_items = match self.item_loss_items {
            Some(s) => s,
            None => StartingItems::from_u64(1),
        };

        let settings = PatchSettings {
            input_iso_path,
            output_iso_path,
            iso_format,
            force_vanilla_layout,
            seed: match self.seed {
                Some(n) => n,
                None => 123,
            },
            qol_game_breaking,
            qol_cosmetic,
            qol_cutscenes,
            qol_pickup_scans,
            phazon_elite_without_dynamo: flag_or(self.phazon_elite_without_dynamo, true),
            main_plaza_door: flag_or(self.main_plaza_door, true),
            backwards_labs: flag_or(self.backwards_labs, true),
            backwards_frigate: flag_or(self.backwards_frigate, true),
            backwards_upper_mines: flag_or(self.backwards_upper_mines, true),
            backwards_lower_mines: flag_or(self.backwards_lower_mines, true),
            starting_room,
            starting_memo: clone_string_option(&self.starting_memo),
            warp_to_start,
            automatic_crash_screen: flag_or(self.automatic_crash_screen, false),
            etank_capacity: match self.etank_capacity {
                Some(n) => n,
                None => 100,
            },
            nonvaria_heat_damage: flag_or(self.nonvaria_heat_damage, false),
            staggered_suit_damage: flag_or(self.staggered_suit_damage, false),
            item_max_capacity,
            map_default_state,
            auto_enabled_elevators: flag_or(self.auto_enabled_elevators, false),
            multiworld_dol_patches: flag_or(self.multiworld_dol_patches, false),
            update_hint_state_replacement: clone_bytes_option(&self.update_hint_state_replacement),
            quiet: flag_or(self.quiet, false),
            starting_items,
            item_loss_items,
            artifact_hint_behavior,
            suit_hue_rotate_angle: None,
            quickplay: flag_or(self.quickplay, false),
            game_banner,
            comment: string_or(&self.comment, ""),
            main_menu_message,
            credits_string,
            level_data: clone_levels(&self.level_data),
            artifact_hints: clone_hints(&self.artifact_hints),
            extern_assets_dir: clone_string_option(&self.extern_assets_dir),
            artifact_temple_layer_overrides: clone_overrides(&self.artifact_temple_layer_overrides),
            ctwk_config: self.tweaks,
        };
        assert(spec_settled(*self, settings));
        Ok(settings)
    }

    /// What `settle` gives, where it gives an answer: `None` where the
    /// cutscene mode or an item name of the capacity option is unknown
    /// (and neither the artifact hint behavior nor the map state is refused).
    pub fn try_settle(&self) -> (r: Option<Result<PatchSettings, ConfigError>>)
        ensures
            r is Some <==> spec_settles(*self),
            spec_settles(*self) ==> (spec_artifact_hint_behavior(spec_artifact_key(*self)) is None ==> (r matches Some(Err(
                ConfigError::UnhandledArtifactHintBehavior(k),
            )) && k@ == spec_artifact_key(*self))),
            spec_settles(*self) && spec_artifact_hint_behavior(spec_artifact_key(*self)) is Some
                && spec_map_state(spec_map_key(*self)) is None ==> (r matches Some(Err(
                ConfigError::UnhandledMapDefaultState(k),
            )) && k@ == spec_map_key(*self)),
            spec_artifact_hint_behavior(spec_artifact_key(*self)) is Some && spec_map_state(
                spec_map_key(*self),
            ) is Some && spec_settles(*self) ==> (r matches Some(Ok(s)) && spec_settled(*self, s)),
    {
        let artifact_default = string_or(&self.artifact_hint_behavior, "all");
        let artifact_key = trimmed_lower(artifact_default.as_str());
        let map_default = string_or(&self.map_default_state, "default");
        let map_key = trimmed_lower(map_default.as_str());
        let refused = artifact_hint_behavior_of(artifact_key.as_str()).is_none() || map_state_of(
            map_key.as_str(),
        ).is_none();
        if !refused {
            let cutscene_default = string_or(&self.qol_cutscenes, "original");
            let cutscene_key = lower_trimmed(cutscene_default.as_str());
            if cutscene_mode_of(cutscene_key.as_str()).is_none() {
                return None;
            }
            match &self.item_max_capacity {
                Some(v) => {
                    let mut k: usize = 0;
                    while k < v.len()
                        invariant
                            0 <= k <= v@.len(),
                            self.item_max_capacity == Some(*v),
                            spec_artifact_hint_behavior(spec_artifact_key(*self)) is Some,
                            spec_map_state(spec_map_key(*self)) is Some,
                            forall|j: int| 0 <= j < k ==> spec_names_kind(#[trigger] v@[j].0@),
                        decreases v@.len() - k,
                    {
                        match PickupType::find(v[k].0.as_str()) {
                            Some(t) => {
                                proof {
                                    let i = choose|i: int|
                                        0 <= i < 42 && spec_pickup_types()[i] == t && spec_type_name_matches(
                                            v@[k as int].0@,
                                            t,
                                        ) && forall|j: int|
                                            0 <= j < i ==> !spec_type_name_matches(
                                                v@[k as int].0@,
                                                #[trigger] spec_pickup_types()[j],
                                            );
                                    assert(spec_type_name_matches(v@[k as int].0@, spec_pickup_types()[i]));
                                    assert(spec_names_kind(v@[k as int].0@));
                                }
                            },
                            None => {
                                proof {
                                    assert(!spec_names_kind(v@[k as int].0@));
                                    assert(!spec_names_known(v@));
                                }
                                return None;
                            },
                        }
                        k = k + 1;
                    }
                    assert(spec_names_known(v@));
                },
                None => {},
            }
        }
        Some(self.settle())
    }
}


/// Options left out settle to their defaults: every artifact hint shown, the
/// map in its default state, the cutscenes as they are.
pub proof fn lemma_left_out_options_settle(o: PatchOptions)
    requires
        o.artifact_hint_behavior is None,
        o.map_default_state is None,
        o.qol_cutscenes is None,
        o.item_max_capacity is None,
    ensures
        spec_settles(o),
        spec_artifact_hint_behavior(spec_artifact_key(o)) == Some(ArtifactHintBehavior::All),
        spec_map_state(spec_map_key(o)) == Some(MapState::Default),
        spec_cutscene_mode(spec_cutscene_key(o)) == Some(CutsceneMode::Original),
{
    reveal_strlit("all");
    reveal_strlit("default");
    reveal_strlit("original");
    lemma_lowercase_word("all"@);
    lemma_lowercase_word("default"@);
    lemma_lowercase_word("original"@);
}


/// A cutscene mode's own name, as the profile's JSON writes it: the variant's
/// name in lowercase.
pub open spec fn spec_cutscene_mode_name(m: CutsceneMode) -> Seq<char> {
    match m {
        CutsceneMode::Original => "original"@,
        CutsceneMode::Competitive => "competitive"@,
        CutsceneMode::Minor => "minor"@,
        CutsceneMode::Major => "major"@,
    }
}

/// Each cutscene mode is named by its own name and by no other key: the
/// mode a key gives is the mode whose name the key is, so that no two modes
/// share a key and no mode is lost.
pub proof fn lemma_cutscene_mode_names(m: CutsceneMode, key: Seq<char>)
    ensures
        spec_cutscene_mode(spec_cutscene_mode_name(m)) == Some(m),
        spec_cutscene_mode(key) == Some(m) <==> key == spec_cutscene_mode_name(m),
{
    reveal_strlit("original");
    reveal_strlit("competitive");
    reveal_strlit("minor");
    reveal_strlit("major");
    assert("original"@.len() == 8 && "competitive"@.len() == 11 && "minor"@.len() == 5 && "major"@.len() == 5);
    assert("original"@ != "competitive"@ && "original"@ != "minor"@ && "original"@ != "major"@);
    assert("competitive"@ != "minor"@ && "competitive"@ != "major"@);
    assert("minor"@[1] != "major"@[1]);
    assert("minor"@ != "major"@);
    match m {
        CutsceneMode::Original => {},
        CutsceneMode::Competitive => {},
        CutsceneMode::Minor => {},
        CutsceneMode::Major => {},
    }
}


/// Each map state is read back from its own name in lowercase, and only
/// from that key.
pub proof fn lemma_map_state_names(m: MapState, key: Seq<char>)
    ensures
        spec_map_state(spec_ascii_lowercase(spec_map_state_name(m))) == Some(m),
        spec_map_state(key) == Some(m) <==> key == spec_ascii_lowercase(spec_map_state_name(m)),
{
    reveal_strlit("Default");
    reveal_strlit("Visible");
    reveal_strlit("Visited");
    reveal_strlit("default");
    reveal_strlit("visible");
    reveal_strlit("visited");
    assert(spec_ascii_lowercase("Default"@) =~= "default"@);
    assert(spec_ascii_lowercase("Visible"@) =~= "visible"@);
    assert(spec_ascii_lowercase("Visited"@) =~= "visited"@);
    assert("default"@[0] != "visible"@[0] && "visible"@[4] != "visited"@[4]);
    assert("default"@ != "visible"@ && "default"@ != "visited"@ && "visible"@ != "visited"@);
    match m {
        MapState::Default => {},
        MapState::Visible => {},
        MapState::Visited => {},
    }
}

/// The key that names each artifact hint behavior: "all" for every hint,
/// "none" for no hints, "default" for the game's own.
pub open spec fn spec_artifact_hint_key(b: ArtifactHintBehavior) -> Seq<char> {
    match b {
        ArtifactHintBehavior::All => "all"@,
        ArtifactHintBehavior::NoHints => "none"@,
        ArtifactHintBehavior::Default => "default"@,
    }
}

/// Each artifact hint behavior is named by its own key and by no other.
pub proof fn lemma_artifact_hint_keys(b: ArtifactHintBehavior, key: Seq<char>)
    ensures
        spec_artifact_hint_behavior(spec_artifact_hint_key(b)) == Some(b),
        spec_artifact_hint_behavior(key) == Some(b) <==> key == spec_artifact_hint_key(b),
{
    reveal_strlit("all");
    reveal_strlit("none");
    reveal_strlit("default");
    assert("all"@.len() == 3 && "none"@.len() == 4 && "default"@.len() == 7);
    assert("all"@ != "none"@ && "all"@ != "default"@ && "none"@ != "default"@);
    match b {
        ArtifactHintBehavior::All => {},
        ArtifactHintBehavior::NoHints => {},
        ArtifactHintBehavior::Default => {},
    }
}

/// A path's extension chooses the disc image format, whatever comes before
/// it: ".gcz" a GCZ image, ".ciso" a CISO image, any other a plain ISO.
pub proof fn lemma_iso_format_by_extension(stem: Seq<char>)
    ensures
        spec_iso_format(stem + ".gcz"@) == IsoFormat::Gcz,
        spec_iso_format(stem + ".ciso"@) == IsoFormat::Ciso,
        spec_iso_format(stem + ".iso"@) == IsoFormat::Iso,
{
    reveal_strlit(".gcz");
    reveal_strlit(".ciso");
    reveal_strlit(".iso");
    let g = stem + ".gcz"@;
    assert(g.subrange(g.len() - 4, g.len() as int) =~= ".gcz"@);
    let c = stem + ".ciso"@;
    assert(c.subrange(c.len() - 5, c.len() as int) =~= ".ciso"@);
    assert(c.subrange(c.len() - 4, c.len() as int)[1] != ".gcz"@[1]);
    let i = stem + ".iso"@;
    assert(i.subrange(i.len() - 4, i.len() as int)[1] != ".gcz"@[1]);
    if i.len() >= 5 {
        assert(i.subrange(i.len() - 5, i.len() as int)[1] != ".ciso"@[1]);
    }
}

} // verus!
