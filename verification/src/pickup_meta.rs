//! The kinds of pickups and the models they are shown with.
use vstd::prelude::*;
use crate::text::{
    lemma_name_key, lower_trimmed, spec_all_ascii, spec_ascii_lowercase, spec_key_code, spec_lowercase,
    spec_trim, str_eq,
};

verus! {

/// The id the patcher gives the first of the default scan strings of the
/// pickups; each kind's string follows at its kind number.
pub const DEFAULT_PICKUP_SCAN_STRGS: u32 = 0xDEAF_0036;

/// The id of the first default scan of the pickups.
pub const DEFAULT_PICKUP_SCANS: u32 = 0xDEAF_0068;

/// The id of the first default message string of the pickups.
pub const DEFAULT_PICKUP_HUDMEMO_STRGS: u32 = 0xDEAF_009A;

/// A pickup kind, as the game engine numbers them.
#[derive(Clone, Copy, Debug, PartialEq, Eq, Hash, Structural)]
pub enum PickupType {
    PowerBeam,
    IceBeam,
    WaveBeam,
    PlasmaBeam,
    Missile,
    ScanVisor,
    MorphBallBomb,
    PowerBomb,
    Flamethrower,
    ThermalVisor,
    ChargeBeam,
    SuperMissile,
    GrappleBeam,
    XRayVisor,
    IceSpreader,
    SpaceJumpBoots,
    MorphBall,
    CombatVisor,
    BoostBall,
    SpiderBall,
    PowerSuit,
    GravitySuit,
    VariaSuit,
    PhazonSuit,
    EnergyTank,
    UnknownItem1,
    HealthRefill,
    UnknownItem2,
    Wavebuster,
    ArtifactOfTruth,
    ArtifactOfStrength,
    ArtifactOfElder,
    ArtifactOfWild,
    ArtifactOfLifegiver,
    ArtifactOfWarrior,
    ArtifactOfChozo,
    ArtifactOfNature,
    ArtifactOfSun,
    ArtifactOfWorld,
    ArtifactOfSpirit,
    ArtifactOfNewborn,
    Nothing,
}

/// The pickup kinds in the order `PickupType::iter` gives them: by kind
/// number.
pub open spec fn spec_pickup_types() -> Seq<PickupType> {
    seq![
        PickupType::PowerBeam,
        PickupType::IceBeam,
        PickupType::WaveBeam,
        PickupType::PlasmaBeam,
        PickupType::Missile,
        PickupType::ScanVisor,
        PickupType::MorphBallBomb,
        PickupType::PowerBomb,
        PickupType::Flamethrower,
        PickupType::ThermalVisor,
        PickupType::ChargeBeam,
        PickupType::SuperMissile,
        PickupType::GrappleBeam,
        PickupType::XRayVisor,
        PickupType::IceSpreader,
        PickupType::SpaceJumpBoots,
        PickupType::MorphBall,
        PickupType::CombatVisor,
        PickupType::BoostBall,
        PickupType::SpiderBall,
        PickupType::PowerSuit,
        PickupType::GravitySuit,
        PickupType::VariaSuit,
        PickupType::PhazonSuit,
        PickupType::EnergyTank,
        PickupType::UnknownItem1,
        PickupType::HealthRefill,
        PickupType::UnknownItem2,
        PickupType::Wavebuster,
        PickupType::ArtifactOfTruth,
        PickupType::ArtifactOfStrength,
        PickupType::ArtifactOfElder,
        PickupType::ArtifactOfWild,
        PickupType::ArtifactOfLifegiver,
        PickupType::ArtifactOfWarrior,
        PickupType::ArtifactOfChozo,
        PickupType::ArtifactOfNature,
        PickupType::ArtifactOfSun,
        PickupType::ArtifactOfWorld,
        PickupType::ArtifactOfSpirit,
        PickupType::ArtifactOfNewborn,
        PickupType::Nothing,
    ]
}

/// A pickup kind's name.
pub open spec fn spec_type_name(t: PickupType) -> Seq<char> {
    match t {
        PickupType::PowerBeam => "Power Beam"@,
        PickupType::IceBeam => "Ice Beam"@,
        PickupType::WaveBeam => "Wave Beam"@,
        PickupType::PlasmaBeam => "Plasma Beam"@,
        PickupType::Missile => "Missile"@,
        PickupType::ScanVisor => "Scan Visor"@,
        PickupType::MorphBallBomb => "Morph Ball Bomb"@,
        PickupType::PowerBomb => "Power Bomb"@,
        PickupType::Flamethrower => "Flamethrower"@,
        PickupType::ThermalVisor => "Thermal Visor"@,
        PickupType::ChargeBeam => "Charge Beam"@,
        PickupType::SuperMissile => "Super Missile"@,
        PickupType::GrappleBeam => "Grapple Beam"@,
        PickupType::XRayVisor => "X-Ray Visor"@,
        PickupType::IceSpreader => "Ice Spreader"@,
        PickupType::SpaceJumpBoots => "Space Jump Boots"@,
        PickupType::MorphBall => "Morph Ball"@,
        PickupType::CombatVisor => "Combat Visor"@,
        PickupType::BoostBall => "Boost Ball"@,
        PickupType::SpiderBall => "Spider Ball"@,
        PickupType::PowerSuit => "Power Suit"@,
        PickupType::GravitySuit => "Gravity Suit"@,
        PickupType::VariaSuit => "Varia Suit"@,
        PickupType::PhazonSuit => "Phazon Suit"@,
        PickupType::EnergyTank => "Energy Tank"@,
        PickupType::UnknownItem1 => "Unknown Item 1"@,
        PickupType::HealthRefill => "Health Refill"@,
        PickupType::UnknownItem2 => "Unknown Item 2"@,
        PickupType::Wavebuster => "Wavebuster"@,
        PickupType::ArtifactOfTruth => "Artifact Of Truth"@,
        PickupType::ArtifactOfStrength => "Artifact Of Strength"@,
        PickupType::ArtifactOfElder => "Artifact Of Elder"@,
        PickupType::ArtifactOfWild => "Artifact Of Wild"@,
        PickupType::ArtifactOfLifegiver => "Artifact Of Lifegiver"@,
        PickupType::ArtifactOfWarrior => "Artifact Of Warrior"@,
        PickupType::ArtifactOfChozo => "Artifact Of Chozo"@,
        PickupType::ArtifactOfNature => "Artifact Of Nature"@,
        PickupType::ArtifactOfSun => "Artifact Of Sun"@,
        PickupType::ArtifactOfWorld => "Artifact Of World"@,
        PickupType::ArtifactOfSpirit => "Artifact Of Spirit"@,
        PickupType::ArtifactOfNewborn => "Artifact Of Newborn"@,
        PickupType::Nothing => "Nothing"@,
    }
}

/// A pickup kind's number.
pub open spec fn spec_kind(t: PickupType) -> u32 {
    match t {
        PickupType::PowerBeam => 0,
        PickupType::IceBeam => 1,
        PickupType::WaveBeam => 2,
        PickupType::PlasmaBeam => 3,
        PickupType::Missile => 4,
        PickupType::ScanVisor => 5,
        PickupType::MorphBallBomb => 6,
        PickupType::PowerBomb => 7,
        PickupType::Flamethrower => 8,
        PickupType::ThermalVisor => 9,
        PickupType::ChargeBeam => 10,
        PickupType::SuperMissile => 11,
        PickupType::GrappleBeam => 12,
        PickupType::XRayVisor => 13,
        PickupType::IceSpreader => 14,
        PickupType::SpaceJumpBoots => 15,
        PickupType::MorphBall => 16,
        PickupType::CombatVisor => 17,
        PickupType::BoostBall => 18,
        PickupType::SpiderBall => 19,
        PickupType::PowerSuit => 20,
        PickupType::GravitySuit => 21,
        PickupType::VariaSuit => 22,
        PickupType::PhazonSuit => 23,
        PickupType::EnergyTank => 24,
        PickupType::UnknownItem1 => 25,
        PickupType::HealthRefill => 26,
        PickupType::UnknownItem2 => 27,
        PickupType::Wavebuster => 28,
        PickupType::ArtifactOfTruth => 29,
        PickupType::ArtifactOfStrength => 30,
        PickupType::ArtifactOfElder => 31,
        PickupType::ArtifactOfWild => 32,
        PickupType::ArtifactOfLifegiver => 33,
        PickupType::ArtifactOfWarrior => 34,
        PickupType::ArtifactOfChozo => 35,
        PickupType::ArtifactOfNature => 36,
        PickupType::ArtifactOfSun => 37,
        PickupType::ArtifactOfWorld => 38,
        PickupType::ArtifactOfSpirit => 39,
        PickupType::ArtifactOfNewborn => 40,
        PickupType::Nothing => 41,
    }
}

/// Whether `string` names pickup kind `t`: both in lowercase and trimmed are
/// the same.
pub open spec fn spec_type_name_matches(string: Seq<char>, t: PickupType) -> bool {
    spec_trim(spec_lowercase(spec_type_name(t))) == spec_trim(spec_lowercase(string))
}

/// Whether `t` comes first, in kind order, among the kinds `string` names.
pub open spec fn spec_first_type(string: Seq<char>, t: PickupType) -> bool {
    exists|i: int|
        0 <= i < 42 && spec_pickup_types()[i] == t && spec_type_name_matches(string, t) && forall|j: int|
            0 <= j < i ==> !spec_type_name_matches(string, #[trigger] spec_pickup_types()[j])
}

/// The pickup kind `s` names (the first, in kind order, where it names more).
pub open spec fn spec_type_of(s: Seq<char>) -> PickupType {
    choose|t: PickupType| spec_first_type(s, t)
}

/// A string names at most one first pickup kind.
pub proof fn lemma_type_of(s: Seq<char>, t: PickupType)
    requires
        spec_first_type(s, t),
    ensures
        spec_type_of(s) == t,
{
    let u = spec_type_of(s);
    assert(spec_first_type(s, u));
    let i = choose|i: int|
        0 <= i < 42 && spec_pickup_types()[i] == t && spec_type_name_matches(s, t) && forall|j: int|
            0 <= j < i ==> !spec_type_name_matches(s, #[trigger] spec_pickup_types()[j]);
    let k = choose|k: int|
        0 <= k < 42 && spec_pickup_types()[k] == u && spec_type_name_matches(s, u) && forall|j: int|
            0 <= j < k ==> !spec_type_name_matches(s, #[trigger] spec_pickup_types()[j]);
    if i < k {
        assert(!spec_type_name_matches(s, spec_pickup_types()[i]));
    } else if k < i {
        assert(!spec_type_name_matches(s, spec_pickup_types()[k]));
    }
}

impl PickupType {
    /// The kind's name.
    pub fn name(&self) -> (r: &'static str)
        ensures
            r@ == spec_type_name(*self),
    {
        match self {
            PickupType::PowerBeam => "Power Beam",
            PickupType::IceBeam => "Ice Beam",
            PickupType::WaveBeam => "Wave Beam",
            PickupType::PlasmaBeam => "Plasma Beam",
            PickupType::Missile => "Missile",
            PickupType::ScanVisor => "Scan Visor",
            PickupType::MorphBallBomb => "Morph Ball Bomb",
            PickupType::PowerBomb => "Power Bomb",
            PickupType::Flamethrower => "Flamethrower",
            PickupType::ThermalVisor => "Thermal Visor",
            PickupType::ChargeBeam => "Charge Beam",
            PickupType::SuperMissile => "Super Missile",
            PickupType::GrappleBeam => "Grapple Beam",
            PickupType::XRayVisor => "X-Ray Visor",
            PickupType::IceSpreader => "Ice Spreader",
            PickupType::SpaceJumpBoots => "Space Jump Boots",
            PickupType::MorphBall => "Morph Ball",
            PickupType::CombatVisor => "Combat Visor",
            PickupType::BoostBall => "Boost Ball",
            PickupType::SpiderBall => "Spider Ball",
            PickupType::PowerSuit => "Power Suit",
            PickupType::GravitySuit => "Gravity Suit",
            PickupType::VariaSuit => "Varia Suit",
            PickupType::PhazonSuit => "Phazon Suit",
            PickupType::EnergyTank => "Energy Tank",
            PickupType::UnknownItem1 => "Unknown Item 1",
            PickupType::HealthRefill => "Health Refill",
            PickupType::UnknownItem2 => "Unknown Item 2",
            PickupType::Wavebuster => "Wavebuster",
            PickupType::ArtifactOfTruth => "Artifact Of Truth",
            PickupType::ArtifactOfStrength => "Artifact Of Strength",
            PickupType::ArtifactOfElder => "Artifact Of Elder",
            PickupType::ArtifactOfWild => "Artifact Of Wild",
            PickupType::ArtifactOfLifegiver => "Artifact Of Lifegiver",
            PickupType::ArtifactOfWarrior => "Artifact Of Warrior",
            PickupType::ArtifactOfChozo => "Artifact Of Chozo",
            PickupType::ArtifactOfNature => "Artifact Of Nature",
            PickupType::ArtifactOfSun => "Artifact Of Sun",
            PickupType::ArtifactOfWorld => "Artifact Of World",
            PickupType::ArtifactOfSpirit => "Artifact Of Spirit",
            PickupType::ArtifactOfNewborn => "Artifact Of Newborn",
            PickupType::Nothing => "Nothing",
        }
    }

    /// Every kind, by kind number.
    pub fn iter() -> (r: Vec<PickupType>)
        ensures
            r@ == spec_pickup_types(),
    {
        let r = vec![
            PickupType::PowerBeam,
            PickupType::IceBeam,
            PickupType::WaveBeam,
            PickupType::PlasmaBeam,
            PickupType::Missile,
            PickupType::ScanVisor,
            PickupType::MorphBallBomb,
            PickupType::PowerBomb,
            PickupType::Flamethrower,
            PickupType::ThermalVisor,
            PickupType::ChargeBeam,
            PickupType::SuperMissile,
            PickupType::GrappleBeam,
            PickupType::XRayVisor,
            PickupType::IceSpreader,
            PickupType::SpaceJumpBoots,
            PickupType::MorphBall,
            PickupType::CombatVisor,
            PickupType::BoostBall,
            PickupType::SpiderBall,
            PickupType::PowerSuit,
            PickupType::GravitySuit,
            PickupType::VariaSuit,
            PickupType::PhazonSuit,
            PickupType::EnergyTank,
            PickupType::UnknownItem1,
            PickupType::HealthRefill,
            PickupType::UnknownItem2,
            PickupType::Wavebuster,
            PickupType::ArtifactOfTruth,
            PickupType::ArtifactOfStrength,
            PickupType::ArtifactOfElder,
            PickupType::ArtifactOfWild,
            PickupType::ArtifactOfLifegiver,
            PickupType::ArtifactOfWarrior,
            PickupType::ArtifactOfChozo,
            PickupType::ArtifactOfNature,
            PickupType::ArtifactOfSun,
            PickupType::ArtifactOfWorld,
            PickupType::ArtifactOfSpirit,
            PickupType::ArtifactOfNewborn,
            PickupType::Nothing,
        ];
        assert(r@ =~= spec_pickup_types());
        r
    }

    /// The kind's number.
    pub fn kind(&self) -> (r: u32)
        ensures
            r == spec_kind(*self),
    {
        match self {
            PickupType::PowerBeam => 0,
            PickupType::IceBeam => 1,
            PickupType::WaveBeam => 2,
            PickupType::PlasmaBeam => 3,
            PickupType::Missile => 4,
            PickupType::ScanVisor => 5,
            PickupType::MorphBallBomb => 6,
            PickupType::PowerBomb => 7,
            PickupType::Flamethrower => 8,
            PickupType::ThermalVisor => 9,
            PickupType::ChargeBeam => 10,
            PickupType::SuperMissile => 11,
            PickupType::GrappleBeam => 12,
            PickupType::XRayVisor => 13,
            PickupType::IceSpreader => 14,
            PickupType::SpaceJumpBoots => 15,
            PickupType::MorphBall => 16,
            PickupType::CombatVisor => 17,
            PickupType::BoostBall => 18,
            PickupType::SpiderBall => 19,
            PickupType::PowerSuit => 20,
            PickupType::GravitySuit => 21,
            PickupType::VariaSuit => 22,
            PickupType::PhazonSuit => 23,
            PickupType::EnergyTank => 24,
            PickupType::UnknownItem1 => 25,
            PickupType::HealthRefill => 26,
            PickupType::UnknownItem2 => 27,
            PickupType::Wavebuster => 28,
            PickupType::ArtifactOfTruth => 29,
            PickupType::ArtifactOfStrength => 30,
            PickupType::ArtifactOfElder => 31,
            PickupType::ArtifactOfWild => 32,
            PickupType::ArtifactOfLifegiver => 33,
            PickupType::ArtifactOfWarrior => 34,
            PickupType::ArtifactOfChozo => 35,
            PickupType::ArtifactOfNature => 36,
            PickupType::ArtifactOfSun => 37,
            PickupType::ArtifactOfWorld => 38,
            PickupType::ArtifactOfSpirit => 39,
            PickupType::ArtifactOfNewborn => 40,
            PickupType::Nothing => 41,
        }
    }

    /// The first kind, by kind number, that `string` names without regard to
    /// case and surrounding whitespace; there must be one.
    pub fn from_str(string: &str) -> (r: PickupType)
        requires
            exists|i: int| 0 <= i < 42 && spec_type_name_matches(string@, #[trigger] spec_pickup_types()[i]),
        ensures
            spec_first_type(string@, r),
    {
        let key = lower_trimmed(string);
        let types = PickupType::iter();
        let mut i: usize = 0;
        while i < types.len()
            invariant
                0 <= i <= 42,
                types@ == spec_pickup_types(),
                key@ == spec_trim(spec_lowercase(string@)),
                forall|j: int| 0 <= j < i ==> !spec_type_name_matches(string@, #[trigger] spec_pickup_types()[j]),
            decreases 42 - i,
        {
            let t = types[i];
            let candidate = lower_trimmed(t.name());
            if str_eq(candidate.as_str(), key.as_str()) {
                assert(spec_pickup_types()[i as int] == t);
                return t;
            }
            i = i + 1;
        }
        proof {
            let k = choose|k: int| 0 <= k < 42 && spec_type_name_matches(string@, #[trigger] spec_pickup_types()[k]);
            assert(!spec_type_name_matches(string@, spec_pickup_types()[k]));
        }
        PickupType::PowerBeam
    }

    /// The kind `from_str` gives for `string`, where `string` names one.
    pub fn find(string: &str) -> (r: Option<PickupType>)
        ensures
            match r {
                Some(t) => spec_first_type(string@, t),
                None => forall|i: int| 0 <= i < 42 ==> !spec_type_name_matches(string@, #[trigger] spec_pickup_types()[i]),
            },
    {
        let key = lower_trimmed(string);
        let types = PickupType::iter();
        let mut i: usize = 0;
        while i < types.len()
            invariant
                0 <= i <= 42,
                types@ == spec_pickup_types(),
                key@ == spec_trim(spec_lowercase(string@)),
                forall|j: int| 0 <= j < i ==> !spec_type_name_matches(string@, #[trigger] spec_pickup_types()[j]),
            decreases 42 - i,
        {
            let t = types[i];
            let candidate = lower_trimmed(t.name());
            if str_eq(candidate.as_str(), key.as_str()) {
                assert(spec_type_name_matches(string@, spec_pickup_types()[i as int]));
                return Some(PickupType::from_str(string));
            }
            i = i + 1;
        }
        None
    }

    /// The id of the kind's default scan string.
    pub fn scan_strg(&self) -> (r: u32)
        ensures
            r == DEFAULT_PICKUP_SCAN_STRGS + spec_kind(*self),
    {
        DEFAULT_PICKUP_SCAN_STRGS + self.kind()
    }

    /// The id of the kind's default scan.
    pub fn scan(&self) -> (r: u32)
        ensures
            r == DEFAULT_PICKUP_SCANS + spec_kind(*self),
    {
        DEFAULT_PICKUP_SCANS + self.kind()
    }

    /// The id of the kind's default message string.
    pub fn hudmemo_strg(&self) -> (r: u32)
        ensures
            r == DEFAULT_PICKUP_HUDMEMO_STRGS + spec_kind(*self),
    {
        DEFAULT_PICKUP_HUDMEMO_STRGS + self.kind()
    }
}

/// A model a pickup can be shown with: one of the game's or one the patcher
/// adds.
#[derive(Clone, Copy, Debug, PartialEq, Eq, Hash, Structural)]
pub enum PickupModel {
    Missile,
    EnergyTank,
    Visor,
    VariaSuit,
    GravitySuit,
    PhazonSuit,
    MorphBall,
    BoostBall,
    SpiderBall,
    MorphBallBomb,
    PowerBombExpansion,
    PowerBomb,
    ChargeBeam,
    SpaceJumpBoots,
    GrappleBeam,
    SuperMissile,
    Wavebuster,
    IceSpreader,
    Flamethrower,
    WaveBeam,
    IceBeam,
    PlasmaBeam,
    ArtifactOfLifegiver,
    ArtifactOfWild,
    ArtifactOfWorld,
    ArtifactOfSun,
    ArtifactOfElder,
    ArtifactOfSpirit,
    ArtifactOfTruth,
    ArtifactOfChozo,
    ArtifactOfWarrior,
    ArtifactOfNewborn,
    ArtifactOfNature,
    ArtifactOfStrength,
    Nothing,
    HealthRefill,
    MissileRefill,
    PowerBombRefill,
    ShinyMissile,
}

/// The models in the order `PickupModel::iter` gives them.
pub open spec fn spec_pickup_models() -> Seq<PickupModel> {
    seq![
        PickupModel::Missile,
        PickupModel::EnergyTank,
        PickupModel::Visor,
        PickupModel::VariaSuit,
        PickupModel::GravitySuit,
        PickupModel::PhazonSuit,
        PickupModel::MorphBall,
        PickupModel::BoostBall,
        PickupModel::SpiderBall,
        PickupModel::MorphBallBomb,
        PickupModel::PowerBombExpansion,
        PickupModel::PowerBomb,
        PickupModel::ChargeBeam,
        PickupModel::SpaceJumpBoots,
        PickupModel::GrappleBeam,
        PickupModel::SuperMissile,
        PickupModel::Wavebuster,
        PickupModel::IceSpreader,
        PickupModel::Flamethrower,
        PickupModel::WaveBeam,
        PickupModel::IceBeam,
        PickupModel::PlasmaBeam,
        PickupModel::ArtifactOfLifegiver,
        PickupModel::ArtifactOfWild,
        PickupModel::ArtifactOfWorld,
        PickupModel::ArtifactOfSun,
        PickupModel::ArtifactOfElder,
        PickupModel::ArtifactOfSpirit,
        PickupModel::ArtifactOfTruth,
        PickupModel::ArtifactOfChozo,
        PickupModel::ArtifactOfWarrior,
        PickupModel::ArtifactOfNewborn,
        PickupModel::ArtifactOfNature,
        PickupModel::ArtifactOfStrength,
        PickupModel::Nothing,
        PickupModel::HealthRefill,
        PickupModel::MissileRefill,
        PickupModel::PowerBombRefill,
        PickupModel::ShinyMissile,
    ]
}

/// A model's name.
pub open spec fn spec_model_name(m: PickupModel) -> Seq<char> {
    match m {
        PickupModel::Missile => "Missile"@,
        PickupModel::EnergyTank => "Energy Tank"@,
        PickupModel::Visor => "Visor"@,
        PickupModel::VariaSuit => "Varia Suit"@,
        PickupModel::GravitySuit => "Gravity Suit"@,
        PickupModel::PhazonSuit => "Phazon Suit"@,
        PickupModel::MorphBall => "Morph Ball"@,
        PickupModel::BoostBall => "Boost Ball"@,
        PickupModel::SpiderBall => "Spider Ball"@,
        PickupModel::MorphBallBomb => "Morph Ball Bomb"@,
        PickupModel::PowerBombExpansion => "Power Bomb Expansion"@,
        PickupModel::PowerBomb => "Power Bomb"@,
        PickupModel::ChargeBeam => "Charge Beam"@,
        PickupModel::SpaceJumpBoots => "Space Jump Boots"@,
        PickupModel::GrappleBeam => "Grapple Beam"@,
        PickupModel::SuperMissile => "Super Missile"@,
        PickupModel::Wavebuster => "Wavebuster"@,
        PickupModel::IceSpreader => "Ice Spreader"@,
        PickupModel::Flamethrower => "Flamethrower"@,
        PickupModel::WaveBeam => "Wave Beam"@,
        PickupModel::IceBeam => "Ice Beam"@,
        PickupModel::PlasmaBeam => "Plasma Beam"@,
        PickupModel::ArtifactOfLifegiver => "Artifact of Lifegiver"@,
        PickupModel::ArtifactOfWild => "Artifact of Wild"@,
        PickupModel::ArtifactOfWorld => "Artifact of World"@,
        PickupModel::ArtifactOfSun => "Artifact of Sun"@,
        PickupModel::ArtifactOfElder => "Artifact of Elder"@,
        PickupModel::ArtifactOfSpirit => "Artifact of Spirit"@,
        PickupModel::ArtifactOfTruth => "Artifact of Truth"@,
        PickupModel::ArtifactOfChozo => "Artifact of Chozo"@,
        PickupModel::ArtifactOfWarrior => "Artifact of Warrior"@,
        PickupModel::ArtifactOfNewborn => "Artifact of Newborn"@,
        PickupModel::ArtifactOfNature => "Artifact of Nature"@,
        PickupModel::ArtifactOfStrength => "Artifact of Strength"@,
        PickupModel::Nothing => "Nothing"@,
        PickupModel::HealthRefill => "Health Refill"@,
        PickupModel::MissileRefill => "Missile Refill"@,
        PickupModel::PowerBombRefill => "Power Bomb Refill"@,
        PickupModel::ShinyMissile => "Shiny Missile"@,
    }
}

/// The model a pickup kind is shown with where none is given.
pub open spec fn spec_model_from_type(t: PickupType) -> PickupModel {
    match t {
        PickupType::PowerBeam => PickupModel::Nothing,
        PickupType::IceBeam => PickupModel::IceBeam,
        PickupType::WaveBeam => PickupModel::WaveBeam,
        PickupType::PlasmaBeam => PickupModel::PlasmaBeam,
        PickupType::Missile => PickupModel::Missile,
        PickupType::ScanVisor => PickupModel::Visor,
        PickupType::MorphBallBomb => PickupModel::MorphBallBomb,
        PickupType::PowerBomb => PickupModel::PowerBomb,
        PickupType::Flamethrower => PickupModel::Flamethrower,
        PickupType::ThermalVisor => PickupModel::Visor,
        PickupType::ChargeBeam => PickupModel::ChargeBeam,
        PickupType::SuperMissile => PickupModel::SuperMissile,
        PickupType::GrappleBeam => PickupModel::GrappleBeam,
        PickupType::XRayVisor => PickupModel::Visor,
        PickupType::IceSpreader => PickupModel::IceSpreader,
        PickupType::SpaceJumpBoots => PickupModel::SpaceJumpBoots,
        PickupType::MorphBall => PickupModel::MorphBall,
        PickupType::CombatVisor => PickupModel::Visor,
        PickupType::BoostBall => PickupModel::BoostBall,
        PickupType::SpiderBall => PickupModel::SpiderBall,
        PickupType::PowerSuit => PickupModel::Nothing,
        PickupType::GravitySuit => PickupModel::GravitySuit,
        PickupType::VariaSuit => PickupModel::VariaSuit,
        PickupType::PhazonSuit => PickupModel::PhazonSuit,
        PickupType::EnergyTank => PickupModel::EnergyTank,
        PickupType::UnknownItem1 => PickupModel::Nothing,
        PickupType::HealthRefill => PickupModel::HealthRefill,
        PickupType::UnknownItem2 => PickupModel::Nothing,
        PickupType::Wavebuster => PickupModel::Wavebuster,
        PickupType::ArtifactOfTruth => PickupModel::ArtifactOfTruth,
        PickupType::ArtifactOfStrength => PickupModel::ArtifactOfStrength,
        PickupType::ArtifactOfElder => PickupModel::ArtifactOfElder,
        PickupType::ArtifactOfWild => PickupModel::ArtifactOfWild,
        PickupType::ArtifactOfLifegiver => PickupModel::ArtifactOfLifegiver,
        PickupType::ArtifactOfWarrior => PickupModel::ArtifactOfWarrior,
        PickupType::ArtifactOfChozo => PickupModel::ArtifactOfChozo,
        PickupType::ArtifactOfNature => PickupModel::ArtifactOfNature,
        PickupType::ArtifactOfSun => PickupModel::ArtifactOfSun,
        PickupType::ArtifactOfWorld => PickupModel::ArtifactOfWorld,
        PickupType::ArtifactOfSpirit => PickupModel::ArtifactOfSpirit,
        PickupType::ArtifactOfNewborn => PickupModel::ArtifactOfNewborn,
        PickupType::Nothing => PickupModel::Nothing,
    }
}

/// Earlier names of the visor model.
pub open spec fn spec_visor_aliases() -> Seq<Seq<char>> {
    seq![
        "combat visor"@,
        "scan visor"@,
        "x-ray visor"@,
        "xray visor"@,
        "thermal visor"@,
        "combat"@,
        "scan"@,
        "xray"@,
        "thermal"@,
    ]
}

/// Whether the lowercase, trimmed `key` is the lowercase, trimmed name of
/// model `m`.
pub open spec fn spec_model_name_matches(key: Seq<char>, m: PickupModel) -> bool {
    spec_trim(spec_lowercase(spec_model_name(m))) == key
}

/// The model `string` names: the first model, in `iter` order, whose name
/// matches it without regard to case and surrounding whitespace; else the
/// visor model for one of its earlier names; else none.
pub open spec fn spec_model_from_str(string: Seq<char>, r: Option<PickupModel>) -> bool {
    let key = spec_trim(spec_lowercase(string));
    if exists|i: int| 0 <= i < 39 && spec_model_name_matches(key, #[trigger] spec_pickup_models()[i]) {
        exists|i: int|
            0 <= i < 39 && spec_model_name_matches(key, spec_pickup_models()[i]) && r == Some(
                spec_pickup_models()[i],
            ) && forall|j: int| 0 <= j < i ==> !spec_model_name_matches(key, #[trigger] spec_pickup_models()[j])
    } else if spec_visor_aliases().contains(key) {
        r == Some(PickupModel::Visor)
    } else {
        r is None
    }
}

impl PickupModel {
    /// The model's name.
    pub fn name(&self) -> (r: &'static str)
        ensures
            r@ == spec_model_name(*self),
    {
        match self {
            PickupModel::Missile => "Missile",
            PickupModel::EnergyTank => "Energy Tank",
            PickupModel::Visor => "Visor",
            PickupModel::VariaSuit => "Varia Suit",
            PickupModel::GravitySuit => "Gravity Suit",
            PickupModel::PhazonSuit => "Phazon Suit",
            PickupModel::MorphBall => "Morph Ball",
            PickupModel::BoostBall => "Boost Ball",
            PickupModel::SpiderBall => "Spider Ball",
            PickupModel::MorphBallBomb => "Morph Ball Bomb",
            PickupModel::PowerBombExpansion => "Power Bomb Expansion",
            PickupModel::PowerBomb => "Power Bomb",
            PickupModel::ChargeBeam => "Charge Beam",
            PickupModel::SpaceJumpBoots => "Space Jump Boots",
            PickupModel::GrappleBeam => "Grapple Beam",
            PickupModel::SuperMissile => "Super Missile",
            PickupModel::Wavebuster => "Wavebuster",
            PickupModel::IceSpreader => "Ice Spreader",
            PickupModel::Flamethrower => "Flamethrower",
            PickupModel::WaveBeam => "Wave Beam",
            PickupModel::IceBeam => "Ice Beam",
            PickupModel::PlasmaBeam => "Plasma Beam",
            PickupModel::ArtifactOfLifegiver => "Artifact of Lifegiver",
            PickupModel::ArtifactOfWild => "Artifact of Wild",
            PickupModel::ArtifactOfWorld => "Artifact of World",
            PickupModel::ArtifactOfSun => "Artifact of Sun",
            PickupModel::ArtifactOfElder => "Artifact of Elder",
            PickupModel::ArtifactOfSpirit => "Artifact of Spirit",
            PickupModel::ArtifactOfTruth => "Artifact of Truth",
            PickupModel::ArtifactOfChozo => "Artifact of Chozo",
            PickupModel::ArtifactOfWarrior => "Artifact of Warrior",
            PickupModel::ArtifactOfNewborn => "Artifact of Newborn",
            PickupModel::ArtifactOfNature => "Artifact of Nature",
            PickupModel::ArtifactOfStrength => "Artifact of Strength",
            PickupModel::Nothing => "Nothing",
            PickupModel::HealthRefill => "Health Refill",
            PickupModel::MissileRefill => "Missile Refill",
            PickupModel::PowerBombRefill => "Power Bomb Refill",
            PickupModel::ShinyMissile => "Shiny Missile",
        }
    }

    /// Every model.
    pub fn iter() -> (r: Vec<PickupModel>)
        ensures
            r@ == spec_pickup_models(),
    {
        let r = vec![
            PickupModel::Missile,
            PickupModel::EnergyTank,
            PickupModel::Visor,
            PickupModel::VariaSuit,
            PickupModel::GravitySuit,
            PickupModel::PhazonSuit,
            PickupModel::MorphBall,
            PickupModel::BoostBall,
            PickupModel::SpiderBall,
            PickupModel::MorphBallBomb,
            PickupModel::PowerBombExpansion,
            PickupModel::PowerBomb,
            PickupModel::ChargeBeam,
            PickupModel::SpaceJumpBoots,
            PickupModel::GrappleBeam,
            PickupModel::SuperMissile,
            PickupModel::Wavebuster,
            PickupModel::IceSpreader,
            PickupModel::Flamethrower,
            PickupModel::WaveBeam,
            PickupModel::IceBeam,
            PickupModel::PlasmaBeam,
            PickupModel::ArtifactOfLifegiver,
            PickupModel::ArtifactOfWild,
            PickupModel::ArtifactOfWorld,
            PickupModel::ArtifactOfSun,
            PickupModel::ArtifactOfElder,
            PickupModel::ArtifactOfSpirit,
            PickupModel::ArtifactOfTruth,
            PickupModel::ArtifactOfChozo,
            PickupModel::ArtifactOfWarrior,
            PickupModel::ArtifactOfNewborn,
            PickupModel::ArtifactOfNature,
            PickupModel::ArtifactOfStrength,
            PickupModel::Nothing,
            PickupModel::HealthRefill,
            PickupModel::MissileRefill,
            PickupModel::PowerBombRefill,
            PickupModel::ShinyMissile,
        ];
        assert(r@ =~= spec_pickup_models());
        r
    }

    /// The model `string` names (see `spec_model_from_str`).
    pub fn from_str(string: &str) -> (r: Option<PickupModel>)
        ensures
            spec_model_from_str(string@, r),
    {
        let key = lower_trimmed(string);
        let models = PickupModel::iter();
        let mut i: usize = 0;
        while i < models.len()
            invariant
                0 <= i <= 39,
                models@ == spec_pickup_models(),
                key@ == spec_trim(spec_lowercase(string@)),
                forall|j: int| 0 <= j < i ==> !spec_model_name_matches(key@, #[trigger] spec_pickup_models()[j]),
            decreases 39 - i,
        {
            let m = models[i];
            let candidate = lower_trimmed(m.name());
            if str_eq(candidate.as_str(), key.as_str()) {
                assert(spec_pickup_models()[i as int] == m);
                assert(spec_model_name_matches(key@, spec_pickup_models()[i as int]));
                return Some(m);
            }
            i = i + 1;
        }
        let aliases = vec![
            "combat visor",
            "scan visor",
            "x-ray visor",
            "xray visor",
            "thermal visor",
            "combat",
            "scan",
            "xray",
            "thermal",
        ];
        let ghost alias_views = spec_visor_aliases();
        let mut k: usize = 0;
        while k < aliases.len()
            invariant
                0 <= k <= aliases@.len(),
                aliases@.len() == 9,
                forall|j: int| 0 <= j < 9 ==> #[trigger] aliases@[j]@ == alias_views[j],
                alias_views == spec_visor_aliases(),
                key@ == spec_trim(spec_lowercase(string@)),
                forall|j: int| 0 <= j < 39 ==> !spec_model_name_matches(key@, #[trigger] spec_pickup_models()[j]),
                forall|j: int| 0 <= j < k ==> alias_views[j] != key@,
            decreases aliases@.len() - k,
        {
            if str_eq(aliases[k], key.as_str()) {
                assert(alias_views[k as int] == key@);
                assert(alias_views.contains(key@));
                return Some(PickupModel::Visor);
            }
            k = k + 1;
        }
        None
    }

    /// The model a pickup kind is shown with where none is given.
    pub fn from_type(pickup_type: PickupType) -> (r: PickupModel)
        ensures
            r == spec_model_from_type(pickup_type),
    {
        match pickup_type {
            PickupType::PowerBeam => PickupModel::Nothing,
            PickupType::IceBeam => PickupModel::IceBeam,
            PickupType::WaveBeam => PickupModel::WaveBeam,
            PickupType::PlasmaBeam => PickupModel::PlasmaBeam,
            PickupType::Missile => PickupModel::Missile,
            PickupType::ScanVisor => PickupModel::Visor,
            PickupType::MorphBallBomb => PickupModel::MorphBallBomb,
            PickupType::PowerBomb => PickupModel::PowerBomb,
            PickupType::Flamethrower => PickupModel::Flamethrower,
            PickupType::ThermalVisor => PickupModel::Visor,
            PickupType::ChargeBeam => PickupModel::ChargeBeam,
            PickupType::SuperMissile => PickupModel::SuperMissile,
            PickupType::GrappleBeam => PickupModel::GrappleBeam,
            PickupType::XRayVisor => PickupModel::Visor,
            PickupType::IceSpreader => PickupModel::IceSpreader,
            PickupType::SpaceJumpBoots => PickupModel::SpaceJumpBoots,
            PickupType::MorphBall => PickupModel::MorphBall,
            PickupType::CombatVisor => PickupModel::Visor,
            PickupType::BoostBall => PickupModel::BoostBall,
            PickupType::SpiderBall => PickupModel::SpiderBall,
            PickupType::PowerSuit => PickupModel::Nothing,
            PickupType::GravitySuit => PickupModel::GravitySuit,
            PickupType::VariaSuit => PickupModel::VariaSuit,
            PickupType::PhazonSuit => PickupModel::PhazonSuit,
            PickupType::EnergyTank => PickupModel::EnergyTank,
            PickupType::UnknownItem1 => PickupModel::Nothing,
            PickupType::HealthRefill => PickupModel::HealthRefill,
            PickupType::UnknownItem2 => PickupModel::Nothing,
            PickupType::Wavebuster => PickupModel::Wavebuster,
            PickupType::ArtifactOfTruth => PickupModel::ArtifactOfTruth,
            PickupType::ArtifactOfStrength => PickupModel::ArtifactOfStrength,
            PickupType::ArtifactOfElder => PickupModel::ArtifactOfElder,
            PickupType::ArtifactOfWild => PickupModel::ArtifactOfWild,
            PickupType::ArtifactOfLifegiver => PickupModel::ArtifactOfLifegiver,
            PickupType::ArtifactOfWarrior => PickupModel::ArtifactOfWarrior,
            PickupType::ArtifactOfChozo => PickupModel::ArtifactOfChozo,
            PickupType::ArtifactOfNature => PickupModel::ArtifactOfNature,
            PickupType::ArtifactOfSun => PickupModel::ArtifactOfSun,
            PickupType::ArtifactOfWorld => PickupModel::ArtifactOfWorld,
            PickupType::ArtifactOfSpirit => PickupModel::ArtifactOfSpirit,
            PickupType::ArtifactOfNewborn => PickupModel::ArtifactOfNewborn,
            PickupType::Nothing => PickupModel::Nothing,
        }
    }
}

/// Where a script object is: its layer and its instance id.
#[derive(Clone, Copy, Debug, PartialEq, Eq, Hash, Structural)]
pub struct ScriptObjectLocation {
    pub layer: u32,
    pub instance_id: u32,
}

/// Script objects of one layer that the patcher removes.
#[derive(Clone, Copy, Debug)]
pub struct ObjectsToRemove {
    pub layer: u32,
    pub instance_ids: &'static [u32],
}

/// A room of a world as the room list gives it: its MREA id, its name, the
/// ids of its name string and of its map, and the script objects the patcher
/// removes from it.
#[derive(Clone, Copy, Debug)]
pub struct RoomInfo {
    pub room_id: u32,
    pub name: &'static str,
    pub name_id: u32,
    pub mapa_id: u32,
    pub objects_to_remove: &'static [ObjectsToRemove],
}


/// The lowercase, trimmed name of a kind, as names are compared.
pub open spec fn spec_type_key(t: PickupType) -> Seq<char> {
    spec_trim(spec_lowercase(spec_type_name(t)))
}

/// The key code of each kind's name.
pub open spec fn spec_type_code(t: PickupType) -> int {
    match t {
        PickupType::PowerBeam => 681325,
        PickupType::IceBeam => 532589,
        PickupType::WaveBeam => 615789,
        PickupType::PlasmaBeam => 750445,
        PickupType::Missile => 488293,
        PickupType::ScanVisor => 683634,
        PickupType::MorphBallBomb => 1011810,
        PickupType::PowerBomb => 681314,
        PickupType::Flamethrower => 814450,
        PickupType::ThermalVisor => 881266,
        PickupType::ChargeBeam => 750189,
        PickupType::SuperMissile => 877925,
        PickupType::GrappleBeam => 815213,
        PickupType::XRayVisor => 745842,
        PickupType::IceSpreader => 794738,
        PickupType::SpaceJumpBoots => 1074035,
        PickupType::MorphBall => 684140,
        PickupType::CombatVisor => 811634,
        PickupType::BoostBall => 684908,
        PickupType::SpiderBall => 746604,
        PickupType::PowerSuit => 681332,
        PickupType::GravitySuit => 816756,
        PickupType::VariaSuit => 682356,
        PickupType::PhazonSuit => 752244,
        PickupType::EnergyTank => 750187,
        PickupType::UnknownItem1 => 945713,
        PickupType::HealthRefill => 879724,
        PickupType::UnknownItem2 => 945714,
        PickupType::Wavebuster => 681330,
        PickupType::ArtifactOfTruth => 1141096,
        PickupType::ArtifactOfStrength => 1337704,
        PickupType::ArtifactOfElder => 1141106,
        PickupType::ArtifactOfWild => 1075556,
        PickupType::ArtifactOfLifegiver => 1403250,
        PickupType::ArtifactOfWarrior => 1272178,
        PickupType::ArtifactOfChozo => 1141103,
        PickupType::ArtifactOfNature => 1206629,
        PickupType::ArtifactOfSun => 1010030,
        PickupType::ArtifactOfWorld => 1141092,
        PickupType::ArtifactOfSpirit => 1206644,
        PickupType::ArtifactOfNewborn => 1272174,
        PickupType::Nothing => 485479,
    }
}

/// The kind with a key code.
pub open spec fn spec_type_of_code(c: int) -> PickupType {
    if c == 681325 {
        PickupType::PowerBeam
    } else     if c == 532589 {
        PickupType::IceBeam
    } else     if c == 615789 {
        PickupType::WaveBeam
    } else     if c == 750445 {
        PickupType::PlasmaBeam
    } else     if c == 488293 {
        PickupType::Missile
    } else     if c == 683634 {
        PickupType::ScanVisor
    } else     if c == 1011810 {
        PickupType::MorphBallBomb
    } else     if c == 681314 {
        PickupType::PowerBomb
    } else     if c == 814450 {
        PickupType::Flamethrower
    } else     if c == 881266 {
        PickupType::ThermalVisor
    } else     if c == 750189 {
        PickupType::ChargeBeam
    } else     if c == 877925 {
        PickupType::SuperMissile
    } else     if c == 815213 {
        PickupType::GrappleBeam
    } else     if c == 745842 {
        PickupType::XRayVisor
    } else     if c == 794738 {
        PickupType::IceSpreader
    } else     if c == 1074035 {
        PickupType::SpaceJumpBoots
    } else     if c == 684140 {
        PickupType::MorphBall
    } else     if c == 811634 {
        PickupType::CombatVisor
    } else     if c == 684908 {
        PickupType::BoostBall
    } else     if c == 746604 {
        PickupType::SpiderBall
    } else     if c == 681332 {
        PickupType::PowerSuit
    } else     if c == 816756 {
        PickupType::GravitySuit
    } else     if c == 682356 {
        PickupType::VariaSuit
    } else     if c == 752244 {
        PickupType::PhazonSuit
    } else     if c == 750187 {
        PickupType::EnergyTank
    } else     if c == 945713 {
        PickupType::UnknownItem1
    } else     if c == 879724 {
        PickupType::HealthRefill
    } else     if c == 945714 {
        PickupType::UnknownItem2
    } else     if c == 681330 {
        PickupType::Wavebuster
    } else     if c == 1141096 {
        PickupType::ArtifactOfTruth
    } else     if c == 1337704 {
        PickupType::ArtifactOfStrength
    } else     if c == 1141106 {
        PickupType::ArtifactOfElder
    } else     if c == 1075556 {
        PickupType::ArtifactOfWild
    } else     if c == 1403250 {
        PickupType::ArtifactOfLifegiver
    } else     if c == 1272178 {
        PickupType::ArtifactOfWarrior
    } else     if c == 1141103 {
        PickupType::ArtifactOfChozo
    } else     if c == 1206629 {
        PickupType::ArtifactOfNature
    } else     if c == 1010030 {
        PickupType::ArtifactOfSun
    } else     if c == 1141092 {
        PickupType::ArtifactOfWorld
    } else     if c == 1206644 {
        PickupType::ArtifactOfSpirit
    } else     if c == 1272174 {
        PickupType::ArtifactOfNewborn
    } else {
        PickupType::Nothing
    }
}

/// A kind's name is ASCII; its key is its ASCII lowercase form, whose code
/// is the kind's.
proof fn lemma_type_key_code(t: PickupType)
    ensures
        spec_all_ascii(spec_type_name(t)),
        spec_type_key(t) == spec_ascii_lowercase(spec_type_name(t)),
        spec_lowercase(spec_type_name(t)) == spec_ascii_lowercase(spec_type_name(t)),
        spec_key_code(spec_type_key(t)) == spec_type_code(t),
        spec_type_of_code(spec_type_code(t)) == t,
{
    match t {
        PickupType::PowerBeam => {
            reveal_strlit("Power Beam");
        },
        PickupType::IceBeam => {
            reveal_strlit("Ice Beam");
        },
        PickupType::WaveBeam => {
            reveal_strlit("Wave Beam");
        },
        PickupType::PlasmaBeam => {
            reveal_strlit("Plasma Beam");
        },
        PickupType::Missile => {
            reveal_strlit("Missile");
        },
        PickupType::ScanVisor => {
            reveal_strlit("Scan Visor");
        },
        PickupType::MorphBallBomb => {
            reveal_strlit("Morph Ball Bomb");
        },
        PickupType::PowerBomb => {
            reveal_strlit("Power Bomb");
        },
        PickupType::Flamethrower => {
            reveal_strlit("Flamethrower");
        },
        PickupType::ThermalVisor => {
            reveal_strlit("Thermal Visor");
        },
        PickupType::ChargeBeam => {
            reveal_strlit("Charge Beam");
        },
        PickupType::SuperMissile => {
            reveal_strlit("Super Missile");
        },
        PickupType::GrappleBeam => {
            reveal_strlit("Grapple Beam");
        },
        PickupType::XRayVisor => {
            reveal_strlit("X-Ray Visor");
        },
        PickupType::IceSpreader => {
            reveal_strlit("Ice Spreader");
        },
        PickupType::SpaceJumpBoots => {
            reveal_strlit("Space Jump Boots");
        },
        PickupType::MorphBall => {
            reveal_strlit("Morph Ball");
        },
        PickupType::CombatVisor => {
            reveal_strlit("Combat Visor");
        },
        PickupType::BoostBall => {
            reveal_strlit("Boost Ball");
        },
        PickupType::SpiderBall => {
            reveal_strlit("Spider Ball");
        },
        PickupType::PowerSuit => {
            reveal_strlit("Power Suit");
        },
        PickupType::GravitySuit => {
            reveal_strlit("Gravity Suit");
        },
        PickupType::VariaSuit => {
            reveal_strlit("Varia Suit");
        },
        PickupType::PhazonSuit => {
            reveal_strlit("Phazon Suit");
        },
        PickupType::EnergyTank => {
            reveal_strlit("Energy Tank");
        },
        PickupType::UnknownItem1 => {
            reveal_strlit("Unknown Item 1");
        },
        PickupType::HealthRefill => {
            reveal_strlit("Health Refill");
        },
        PickupType::UnknownItem2 => {
            reveal_strlit("Unknown Item 2");
        },
        PickupType::Wavebuster => {
            reveal_strlit("Wavebuster");
        },
        PickupType::ArtifactOfTruth => {
            reveal_strlit("Artifact Of Truth");
        },
        PickupType::ArtifactOfStrength => {
            reveal_strlit("Artifact Of Strength");
        },
        PickupType::ArtifactOfElder => {
            reveal_strlit("Artifact Of Elder");
        },
        PickupType::ArtifactOfWild => {
            reveal_strlit("Artifact Of Wild");
        },
        PickupType::ArtifactOfLifegiver => {
            reveal_strlit("Artifact Of Lifegiver");
        },
        PickupType::ArtifactOfWarrior => {
            reveal_strlit("Artifact Of Warrior");
        },
        PickupType::ArtifactOfChozo => {
            reveal_strlit("Artifact Of Chozo");
        },
        PickupType::ArtifactOfNature => {
            reveal_strlit("Artifact Of Nature");
        },
        PickupType::ArtifactOfSun => {
            reveal_strlit("Artifact Of Sun");
        },
        PickupType::ArtifactOfWorld => {
            reveal_strlit("Artifact Of World");
        },
        PickupType::ArtifactOfSpirit => {
            reveal_strlit("Artifact Of Spirit");
        },
        PickupType::ArtifactOfNewborn => {
            reveal_strlit("Artifact Of Newborn");
        },
        PickupType::Nothing => {
            reveal_strlit("Nothing");
        },
    }
    lemma_name_key(spec_type_name(t));
}

/// Two kinds with the same key are the same kind.
proof fn lemma_type_key_injective(u: PickupType, v: PickupType)
    requires
        spec_type_key(u) == spec_type_key(v),
    ensures
        u == v,
{
    lemma_type_key_code(u);
    lemma_type_key_code(v);
}

/// A kind's number is its place in `PickupType::iter`: numbers run from 0
/// to 41 in that order, one for each kind.
pub proof fn lemma_type_order(t: PickupType)
    ensures
        0 <= spec_kind(t) < 42,
        spec_pickup_types()[spec_kind(t) as int] == t,
        forall|j: int| 0 <= j < 42 ==> spec_kind(#[trigger] spec_pickup_types()[j]) == j,
{
    assert forall|j: int| 0 <= j < 42 implies spec_kind(#[trigger] spec_pickup_types()[j]) == j by {
        if j == 0 {} else if j == 1 {} else if j == 2 {} else if j == 3 {} else if j == 4 {} else if j == 5 {} else if j == 6 {} else if j == 7 {} else if j == 8 {} else if j == 9 {} else if j == 10 {} else if j == 11 {} else if j == 12 {} else if j == 13 {} else if j == 14 {} else if j == 15 {} else if j == 16 {} else if j == 17 {} else if j == 18 {} else if j == 19 {} else if j == 20 {} else if j == 21 {} else if j == 22 {} else if j == 23 {} else if j == 24 {} else if j == 25 {} else if j == 26 {} else if j == 27 {} else if j == 28 {} else if j == 29 {} else if j == 30 {} else if j == 31 {} else if j == 32 {} else if j == 33 {} else if j == 34 {} else if j == 35 {} else if j == 36 {} else if j == 37 {} else if j == 38 {} else if j == 39 {} else if j == 40 {} else {}
    }
}

/// A string names the kind whose name it matches without regard to case and
/// surrounding whitespace: `from_str` gives that kind, and no other kind's
/// name matches it. In particular `from_str(t.name())` is `t`.
pub proof fn lemma_type_name_found(s: Seq<char>, t: PickupType)
    requires
        spec_type_name_matches(s, t),
    ensures
        spec_first_type(s, t),
        forall|u: PickupType| #[trigger] spec_type_name_matches(s, u) ==> u == t,
{
    lemma_type_order(t);
    let i = spec_kind(t) as int;
    assert forall|u: PickupType| #[trigger] spec_type_name_matches(s, u) implies u == t by {
        lemma_type_key_injective(u, t);
    }
    assert forall|j: int| 0 <= j < i implies !spec_type_name_matches(s, #[trigger] spec_pickup_types()[j]) by {
        if spec_type_name_matches(s, spec_pickup_types()[j]) {
            lemma_type_key_injective(spec_pickup_types()[j], t);
        }
    }
    assert(spec_pickup_types()[i] == t);
}

/// Each kind's own name gives the kind back: `from_str(t.name())` is `t`.
pub proof fn lemma_type_name_round_trip(t: PickupType)
    ensures
        spec_first_type(spec_type_name(t), t),
{
    lemma_type_name_found(spec_type_name(t), t);
}


/// The lowercase, trimmed name of a model, as names are compared.
pub open spec fn spec_model_key(m: PickupModel) -> Seq<char> {
    spec_trim(spec_lowercase(spec_model_name(m)))
}

/// The key code of each model's name.
pub open spec fn spec_model_code(m: PickupModel) -> int {
    match m {
        PickupModel::Missile => 488293,
        PickupModel::EnergyTank => 750187,
        PickupModel::Visor => 356210,
        PickupModel::VariaSuit => 682356,
        PickupModel::GravitySuit => 816756,
        PickupModel::PhazonSuit => 752244,
        PickupModel::MorphBall => 684140,
        PickupModel::BoostBall => 684908,
        PickupModel::SpiderBall => 746604,
        PickupModel::MorphBallBomb => 1011810,
        PickupModel::PowerBombExpansion => 1336686,
        PickupModel::PowerBomb => 681314,
        PickupModel::ChargeBeam => 750189,
        PickupModel::SpaceJumpBoots => 1074035,
        PickupModel::GrappleBeam => 815213,
        PickupModel::SuperMissile => 877925,
        PickupModel::Wavebuster => 681330,
        PickupModel::IceSpreader => 794738,
        PickupModel::Flamethrower => 814450,
        PickupModel::WaveBeam => 615789,
        PickupModel::IceBeam => 532589,
        PickupModel::PlasmaBeam => 750445,
        PickupModel::ArtifactOfLifegiver => 1403250,
        PickupModel::ArtifactOfWild => 1075556,
        PickupModel::ArtifactOfWorld => 1141092,
        PickupModel::ArtifactOfSun => 1010030,
        PickupModel::ArtifactOfElder => 1141106,
        PickupModel::ArtifactOfSpirit => 1206644,
        PickupModel::ArtifactOfTruth => 1141096,
        PickupModel::ArtifactOfChozo => 1141103,
        PickupModel::ArtifactOfWarrior => 1272178,
        PickupModel::ArtifactOfNewborn => 1272174,
        PickupModel::ArtifactOfNature => 1206629,
        PickupModel::ArtifactOfStrength => 1337704,
        PickupModel::Nothing => 485479,
        PickupModel::HealthRefill => 879724,
        PickupModel::MissileRefill => 947052,
        PickupModel::PowerBombRefill => 1140076,
        PickupModel::ShinyMissile => 880229,
    }
}

/// The model with a key code.
pub open spec fn spec_model_of_code(c: int) -> PickupModel {
    if c == 488293 {
        PickupModel::Missile
    } else     if c == 750187 {
        PickupModel::EnergyTank
    } else     if c == 356210 {
        PickupModel::Visor
    } else     if c == 682356 {
        PickupModel::VariaSuit
    } else     if c == 816756 {
        PickupModel::GravitySuit
    } else     if c == 752244 {
        PickupModel::PhazonSuit
    } else     if c == 684140 {
        PickupModel::MorphBall
    } else     if c == 684908 {
        PickupModel::BoostBall
    } else     if c == 746604 {
        PickupModel::SpiderBall
    } else     if c == 1011810 {
        PickupModel::MorphBallBomb
    } else     if c == 1336686 {
        PickupModel::PowerBombExpansion
    } else     if c == 681314 {
        PickupModel::PowerBomb
    } else     if c == 750189 {
        PickupModel::ChargeBeam
    } else     if c == 1074035 {
        PickupModel::SpaceJumpBoots
    } else     if c == 815213 {
        PickupModel::GrappleBeam
    } else     if c == 877925 {
        PickupModel::SuperMissile
    } else     if c == 681330 {
        PickupModel::Wavebuster
    } else     if c == 794738 {
        PickupModel::IceSpreader
    } else     if c == 814450 {
        PickupModel::Flamethrower
    } else     if c == 615789 {
        PickupModel::WaveBeam
    } else     if c == 532589 {
        PickupModel::IceBeam
    } else     if c == 750445 {
        PickupModel::PlasmaBeam
    } else     if c == 1403250 {
        PickupModel::ArtifactOfLifegiver
    } else     if c == 1075556 {
        PickupModel::ArtifactOfWild
    } else     if c == 1141092 {
        PickupModel::ArtifactOfWorld
    } else     if c == 1010030 {
        PickupModel::ArtifactOfSun
    } else     if c == 1141106 {
        PickupModel::ArtifactOfElder
    } else     if c == 1206644 {
        PickupModel::ArtifactOfSpirit
    } else     if c == 1141096 {
        PickupModel::ArtifactOfTruth
    } else     if c == 1141103 {
        PickupModel::ArtifactOfChozo
    } else     if c == 1272178 {
        PickupModel::ArtifactOfWarrior
    } else     if c == 1272174 {
        PickupModel::ArtifactOfNewborn
    } else     if c == 1206629 {
        PickupModel::ArtifactOfNature
    } else     if c == 1337704 {
        PickupModel::ArtifactOfStrength
    } else     if c == 485479 {
        PickupModel::Nothing
    } else     if c == 879724 {
        PickupModel::HealthRefill
    } else     if c == 947052 {
        PickupModel::MissileRefill
    } else     if c == 1140076 {
        PickupModel::PowerBombRefill
    } else {
        PickupModel::ShinyMissile
    }
}

/// Whether a code is that of some model's name.
pub open spec fn spec_is_model_code(c: int) -> bool {
    c == 488293 || c == 750187 || c == 356210 || c == 682356 || c == 816756 || c == 752244 || c == 684140 || c == 684908 || c == 746604 || c == 1011810 || c == 1336686 || c == 681314 || c == 750189 || c == 1074035 || c == 815213 || c == 877925 || c == 681330 || c == 794738 || c == 814450 || c == 615789 || c == 532589 || c == 750445 || c == 1403250 || c == 1075556 || c == 1141092 || c == 1010030 || c == 1141106 || c == 1206644 || c == 1141096 || c == 1141103 || c == 1272178 || c == 1272174 || c == 1206629 || c == 1337704 || c == 485479 || c == 879724 || c == 947052 || c == 1140076 || c == 880229
}

/// Whether a code is that of some earlier name of the visor model.
pub open spec fn spec_is_alias_code(c: int) -> bool {
    c == 811634 || c == 683634 || c == 745842 || c == 686450 || c == 881266 || c == 418420 || c == 290414 || c == 293241 || c == 488044
}

/// A model's place in `iter` order.
pub open spec fn spec_model_index(m: PickupModel) -> int {
    match m {
        PickupModel::Missile => 0,
        PickupModel::EnergyTank => 1,
        PickupModel::Visor => 2,
        PickupModel::VariaSuit => 3,
        PickupModel::GravitySuit => 4,
        PickupModel::PhazonSuit => 5,
        PickupModel::MorphBall => 6,
        PickupModel::BoostBall => 7,
        PickupModel::SpiderBall => 8,
        PickupModel::MorphBallBomb => 9,
        PickupModel::PowerBombExpansion => 10,
        PickupModel::PowerBomb => 11,
        PickupModel::ChargeBeam => 12,
        PickupModel::SpaceJumpBoots => 13,
        PickupModel::GrappleBeam => 14,
        PickupModel::SuperMissile => 15,
        PickupModel::Wavebuster => 16,
        PickupModel::IceSpreader => 17,
        PickupModel::Flamethrower => 18,
        PickupModel::WaveBeam => 19,
        PickupModel::IceBeam => 20,
        PickupModel::PlasmaBeam => 21,
        PickupModel::ArtifactOfLifegiver => 22,
        PickupModel::ArtifactOfWild => 23,
        PickupModel::ArtifactOfWorld => 24,
        PickupModel::ArtifactOfSun => 25,
        PickupModel::ArtifactOfElder => 26,
        PickupModel::ArtifactOfSpirit => 27,
        PickupModel::ArtifactOfTruth => 28,
        PickupModel::ArtifactOfChozo => 29,
        PickupModel::ArtifactOfWarrior => 30,
        PickupModel::ArtifactOfNewborn => 31,
        PickupModel::ArtifactOfNature => 32,
        PickupModel::ArtifactOfStrength => 33,
        PickupModel::Nothing => 34,
        PickupModel::HealthRefill => 35,
        PickupModel::MissileRefill => 36,
        PickupModel::PowerBombRefill => 37,
        PickupModel::ShinyMissile => 38,
    }
}

/// A model's key is its name's ASCII lowercase form, whose code is the
/// model's.
proof fn lemma_model_key_code(m: PickupModel)
    ensures
        spec_model_key(m) == spec_ascii_lowercase(spec_model_name(m)),
        spec_key_code(spec_model_key(m)) == spec_model_code(m),
        spec_model_of_code(spec_model_code(m)) == m,
        spec_is_model_code(spec_model_code(m)),
{
    match m {
        PickupModel::Missile => {
            reveal_strlit("Missile");
        },
        PickupModel::EnergyTank => {
            reveal_strlit("Energy Tank");
        },
        PickupModel::Visor => {
            reveal_strlit("Visor");
        },
        PickupModel::VariaSuit => {
            reveal_strlit("Varia Suit");
        },
        PickupModel::GravitySuit => {
            reveal_strlit("Gravity Suit");
        },
        PickupModel::PhazonSuit => {
            reveal_strlit("Phazon Suit");
        },
        PickupModel::MorphBall => {
            reveal_strlit("Morph Ball");
        },
        PickupModel::BoostBall => {
            reveal_strlit("Boost Ball");
        },
        PickupModel::SpiderBall => {
            reveal_strlit("Spider Ball");
        },
        PickupModel::MorphBallBomb => {
            reveal_strlit("Morph Ball Bomb");
        },
        PickupModel::PowerBombExpansion => {
            reveal_strlit("Power Bomb Expansion");
        },
        PickupModel::PowerBomb => {
            reveal_strlit("Power Bomb");
        },
        PickupModel::ChargeBeam => {
            reveal_strlit("Charge Beam");
        },
        PickupModel::SpaceJumpBoots => {
            reveal_strlit("Space Jump Boots");
        },
        PickupModel::GrappleBeam => {
            reveal_strlit("Grapple Beam");
        },
        PickupModel::SuperMissile => {
            reveal_strlit("Super Missile");
        },
        PickupModel::Wavebuster => {
            reveal_strlit("Wavebuster");
        },
        PickupModel::IceSpreader => {
            reveal_strlit("Ice Spreader");
        },
        PickupModel::Flamethrower => {
            reveal_strlit("Flamethrower");
        },
        PickupModel::WaveBeam => {
            reveal_strlit("Wave Beam");
        },
        PickupModel::IceBeam => {
            reveal_strlit("Ice Beam");
        },
        PickupModel::PlasmaBeam => {
            reveal_strlit("Plasma Beam");
        },
        PickupModel::ArtifactOfLifegiver => {
            reveal_strlit("Artifact of Lifegiver");
        },
        PickupModel::ArtifactOfWild => {
            reveal_strlit("Artifact of Wild");
        },
        PickupModel::ArtifactOfWorld => {
            reveal_strlit("Artifact of World");
        },
        PickupModel::ArtifactOfSun => {
            reveal_strlit("Artifact of Sun");
        },
        PickupModel::ArtifactOfElder => {
            reveal_strlit("Artifact of Elder");
        },
        PickupModel::ArtifactOfSpirit => {
            reveal_strlit("Artifact of Spirit");
        },
        PickupModel::ArtifactOfTruth => {
            reveal_strlit("Artifact of Truth");
        },
        PickupModel::ArtifactOfChozo => {
            reveal_strlit("Artifact of Chozo");
        },
        PickupModel::ArtifactOfWarrior => {
            reveal_strlit("Artifact of Warrior");
        },
        PickupModel::ArtifactOfNewborn => {
            reveal_strlit("Artifact of Newborn");
        },
        PickupModel::ArtifactOfNature => {
            reveal_strlit("Artifact of Nature");
        },
        PickupModel::ArtifactOfStrength => {
            reveal_strlit("Artifact of Strength");
        },
        PickupModel::Nothing => {
            reveal_strlit("Nothing");
        },
        PickupModel::HealthRefill => {
            reveal_strlit("Health Refill");
        },
        PickupModel::MissileRefill => {
            reveal_strlit("Missile Refill");
        },
        PickupModel::PowerBombRefill => {
            reveal_strlit("Power Bomb Refill");
        },
        PickupModel::ShinyMissile => {
            reveal_strlit("Shiny Missile");
        },
    }
    lemma_name_key(spec_model_name(m));
}

/// Two models with the same key are the same model.
proof fn lemma_model_key_injective(m1: PickupModel, m2: PickupModel)
    requires
        spec_model_key(m1) == spec_model_key(m2),
    ensures
        m1 == m2,
{
    lemma_model_key_code(m1);
    lemma_model_key_code(m2);
}

/// Each model stands in `iter` order at its index.
pub proof fn lemma_model_order(m: PickupModel)
    ensures
        0 <= spec_model_index(m) < 39,
        spec_pickup_models()[spec_model_index(m)] == m,
        forall|j: int| 0 <= j < 39 ==> spec_model_index(#[trigger] spec_pickup_models()[j]) == j,
{
    assert forall|j: int| 0 <= j < 39 implies spec_model_index(#[trigger] spec_pickup_models()[j]) == j by {
        if j == 0 {} else if j == 1 {} else if j == 2 {} else if j == 3 {} else if j == 4 {} else if j == 5 {} else if j == 6 {} else if j == 7 {} else if j == 8 {} else if j == 9 {} else if j == 10 {} else if j == 11 {} else if j == 12 {} else if j == 13 {} else if j == 14 {} else if j == 15 {} else if j == 16 {} else if j == 17 {} else if j == 18 {} else if j == 19 {} else if j == 20 {} else if j == 21 {} else if j == 22 {} else if j == 23 {} else if j == 24 {} else if j == 25 {} else if j == 26 {} else if j == 27 {} else if j == 28 {} else if j == 29 {} else if j == 30 {} else if j == 31 {} else if j == 32 {} else if j == 33 {} else if j == 34 {} else if j == 35 {} else if j == 36 {} else if j == 37 {} else {}
    }
}

/// The earlier names of the visor model have codes of their own.
proof fn lemma_alias_codes()
    ensures
        forall|i: int| 0 <= i < spec_visor_aliases().len() ==> spec_is_alias_code(#[trigger] spec_key_code(spec_visor_aliases()[i])),
{
    reveal_strlit("combat visor");
    reveal_strlit("scan visor");
    reveal_strlit("x-ray visor");
    reveal_strlit("xray visor");
    reveal_strlit("thermal visor");
    reveal_strlit("combat");
    reveal_strlit("scan");
    reveal_strlit("xray");
    reveal_strlit("thermal");
    assert forall|i: int| 0 <= i < spec_visor_aliases().len() implies spec_is_alias_code(#[trigger] spec_key_code(spec_visor_aliases()[i])) by {
        if i == 0 {} else if i == 1 {} else if i == 2 {} else if i == 3 {} else if i == 4 {} else if i == 5 {} else if i == 6 {} else if i == 7 {} else {}
    }
}

/// A key whose code is no model's code matches no model.
proof fn lemma_unmatched_key(key: Seq<char>)
    requires
        !spec_is_model_code(spec_key_code(key)),
    ensures
        forall|m: PickupModel| !#[trigger] spec_model_name_matches(key, m),
{
    assert forall|m: PickupModel| !#[trigger] spec_model_name_matches(key, m) by {
        lemma_model_key_code(m);
    }
}

/// A string names the model whose name it matches without regard to case
/// and surrounding whitespace: `from_str` gives that model and nothing else.
/// In particular `from_str(m.name())` is `m`.
pub proof fn lemma_model_name_found(s: Seq<char>, m: PickupModel)
    requires
        spec_model_name_matches(spec_trim(spec_lowercase(s)), m),
    ensures
        spec_model_from_str(s, Some(m)),
        forall|r: Option<PickupModel>| #[trigger] spec_model_from_str(s, r) ==> r == Some(m),
{
    lemma_model_order(m);
    let key = spec_trim(spec_lowercase(s));
    let i = spec_model_index(m);
    assert forall|j: int| 0 <= j < i implies !spec_model_name_matches(key, #[trigger] spec_pickup_models()[j]) by {
        if spec_model_name_matches(key, spec_pickup_models()[j]) {
            lemma_model_key_injective(spec_pickup_models()[j], m);
        }
    }
    assert(spec_model_name_matches(key, spec_pickup_models()[i]));
    assert forall|r: Option<PickupModel>| #[trigger] spec_model_from_str(s, r) implies r == Some(m) by {
        let k = choose|k: int|
            0 <= k < 39 && spec_model_name_matches(key, spec_pickup_models()[k]) && r == Some(
                spec_pickup_models()[k],
            ) && forall|j: int| 0 <= j < k ==> !spec_model_name_matches(key, #[trigger] spec_pickup_models()[j]);
        lemma_model_key_injective(spec_pickup_models()[k], m);
    }
}

/// Each model's own name gives the model back: `from_str(m.name())` is `Some(m)`.
pub proof fn lemma_model_name_round_trip(m: PickupModel)
    ensures
        spec_model_from_str(spec_model_name(m), Some(m)),
{
    lemma_model_name_found(spec_model_name(m), m);
}

/// The model a kind is shown with is the one its name gives, and the nothing
/// model where its name gives none: `from_type(t)` is
/// `from_str(t.name()).unwrap_or(Nothing)`.
#[verifier::rlimit(100)]
#[verifier::spinoff_prover]
pub proof fn lemma_model_from_type_agrees(t: PickupType, r: Option<PickupModel>)
    requires
        spec_model_from_str(spec_type_name(t), r),
    ensures
        spec_model_from_type(t) == match r {
            Some(m) => m,
            None => PickupModel::Nothing,
        },
{
    lemma_type_key_code(t);
    lemma_alias_codes();
    let n = spec_type_name(t);
    let k = spec_trim(spec_lowercase(n));
    assert(k == spec_type_key(t));
    match t {
        PickupType::PowerBeam => {
            lemma_unmatched_key(k);
            if spec_visor_aliases().contains(k) {
                let i = choose|i: int| 0 <= i < spec_visor_aliases().len() && spec_visor_aliases()[i] == k;
                assert(spec_is_alias_code(spec_key_code(spec_visor_aliases()[i])));
            }
        },
        PickupType::IceBeam => {
            lemma_model_key_code(PickupModel::IceBeam);
            lemma_model_name_found(n, PickupModel::IceBeam);
        },
        PickupType::WaveBeam => {
            lemma_model_key_code(PickupModel::WaveBeam);
            lemma_model_name_found(n, PickupModel::WaveBeam);
        },
        PickupType::PlasmaBeam => {
            lemma_model_key_code(PickupModel::PlasmaBeam);
            lemma_model_name_found(n, PickupModel::PlasmaBeam);
        },
        PickupType::Missile => {
            lemma_model_key_code(PickupModel::Missile);
            lemma_model_name_found(n, PickupModel::Missile);
        },
        PickupType::ScanVisor => {
            reveal_strlit("Scan Visor");
            reveal_strlit("scan visor");
            lemma_unmatched_key(k);
            assert(spec_visor_aliases()[1] =~= k);
        },
        PickupType::MorphBallBomb => {
            lemma_model_key_code(PickupModel::MorphBallBomb);
            lemma_model_name_found(n, PickupModel::MorphBallBomb);
        },
        PickupType::PowerBomb => {
            lemma_model_key_code(PickupModel::PowerBomb);
            lemma_model_name_found(n, PickupModel::PowerBomb);
        },
        PickupType::Flamethrower => {
            lemma_model_key_code(PickupModel::Flamethrower);
            lemma_model_name_found(n, PickupModel::Flamethrower);
        },
        PickupType::ThermalVisor => {
            reveal_strlit("Thermal Visor");
            reveal_strlit("thermal visor");
            lemma_unmatched_key(k);
            assert(spec_visor_aliases()[4] =~= k);
        },
        PickupType::ChargeBeam => {
            lemma_model_key_code(PickupModel::ChargeBeam);
            lemma_model_name_found(n, PickupModel::ChargeBeam);
        },
        PickupType::SuperMissile => {
            lemma_model_key_code(PickupModel::SuperMissile);
            lemma_model_name_found(n, PickupModel::SuperMissile);
        },
        PickupType::GrappleBeam => {
            lemma_model_key_code(PickupModel::GrappleBeam);
            lemma_model_name_found(n, PickupModel::GrappleBeam);
        },
        PickupType::XRayVisor => {
            reveal_strlit("X-Ray Visor");
            reveal_strlit("x-ray visor");
            lemma_unmatched_key(k);
            assert(spec_visor_aliases()[2] =~= k);
        },
        PickupType::IceSpreader => {
            lemma_model_key_code(PickupModel::IceSpreader);
            lemma_model_name_found(n, PickupModel::IceSpreader);
        },
        PickupType::SpaceJumpBoots => {
            lemma_model_key_code(PickupModel::SpaceJumpBoots);
            lemma_model_name_found(n, PickupModel::SpaceJumpBoots);
        },
        PickupType::MorphBall => {
            lemma_model_key_code(PickupModel::MorphBall);
            lemma_model_name_found(n, PickupModel::MorphBall);
        },
        PickupType::CombatVisor => {
            reveal_strlit("Combat Visor");
            reveal_strlit("combat visor");
            lemma_unmatched_key(k);
            assert(spec_visor_aliases()[0] =~= k);
        },
        PickupType::BoostBall => {
            lemma_model_key_code(PickupModel::BoostBall);
            lemma_model_name_found(n, PickupModel::BoostBall);
        },
        PickupType::SpiderBall => {
            lemma_model_key_code(PickupModel::SpiderBall);
            lemma_model_name_found(n, PickupModel::SpiderBall);
        },
        PickupType::PowerSuit => {
            lemma_unmatched_key(k);
            if spec_visor_aliases().contains(k) {
                let i = choose|i: int| 0 <= i < spec_visor_aliases().len() && spec_visor_aliases()[i] == k;
                assert(spec_is_alias_code(spec_key_code(spec_visor_aliases()[i])));
            }
        },
        PickupType::GravitySuit => {
            lemma_model_key_code(PickupModel::GravitySuit);
            lemma_model_name_found(n, PickupModel::GravitySuit);
        },
        PickupType::VariaSuit => {
            lemma_model_key_code(PickupModel::VariaSuit);
            lemma_model_name_found(n, PickupModel::VariaSuit);
        },
        PickupType::PhazonSuit => {
            lemma_model_key_code(PickupModel::PhazonSuit);
            lemma_model_name_found(n, PickupModel::PhazonSuit);
        },
        PickupType::EnergyTank => {
            lemma_model_key_code(PickupModel::EnergyTank);
            lemma_model_name_found(n, PickupModel::EnergyTank);
        },
        PickupType::UnknownItem1 => {
            lemma_unmatched_key(k);
            if spec_visor_aliases().contains(k) {
                let i = choose|i: int| 0 <= i < spec_visor_aliases().len() && spec_visor_aliases()[i] == k;
                assert(spec_is_alias_code(spec_key_code(spec_visor_aliases()[i])));
            }
        },
        PickupType::HealthRefill => {
            lemma_model_key_code(PickupModel::HealthRefill);
            lemma_model_name_found(n, PickupModel::HealthRefill);
        },
        PickupType::UnknownItem2 => {
            lemma_unmatched_key(k);
            if spec_visor_aliases().contains(k) {
                let i = choose|i: int| 0 <= i < spec_visor_aliases().len() && spec_visor_aliases()[i] == k;
                assert(spec_is_alias_code(spec_key_code(spec_visor_aliases()[i])));
            }
        },
        PickupType::Wavebuster => {
            lemma_model_key_code(PickupModel::Wavebuster);
            lemma_model_name_found(n, PickupModel::Wavebuster);
        },
        PickupType::ArtifactOfTruth => {
            reveal_strlit("Artifact Of Truth");
            reveal_strlit("Artifact of Truth");
            lemma_model_key_code(PickupModel::ArtifactOfTruth);
            assert(k =~= spec_model_key(PickupModel::ArtifactOfTruth));
            lemma_model_name_found(n, PickupModel::ArtifactOfTruth);
        },
        PickupType::ArtifactOfStrength => {
            reveal_strlit("Artifact Of Strength");
            reveal_strlit("Artifact of Strength");
            lemma_model_key_code(PickupModel::ArtifactOfStrength);
            assert(k =~= spec_model_key(PickupModel::ArtifactOfStrength));
            lemma_model_name_found(n, PickupModel::ArtifactOfStrength);
        },
        PickupType::ArtifactOfElder => {
            reveal_strlit("Artifact Of Elder");
            reveal_strlit("Artifact of Elder");
            lemma_model_key_code(PickupModel::ArtifactOfElder);
            assert(k =~= spec_model_key(PickupModel::ArtifactOfElder));
            lemma_model_name_found(n, PickupModel::ArtifactOfElder);
        },
        PickupType::ArtifactOfWild => {
            reveal_strlit("Artifact Of Wild");
            reveal_strlit("Artifact of Wild");
            lemma_model_key_code(PickupModel::ArtifactOfWild);
            assert(k =~= spec_model_key(PickupModel::ArtifactOfWild));
            lemma_model_name_found(n, PickupModel::ArtifactOfWild);
        },
        PickupType::ArtifactOfLifegiver => {
            reveal_strlit("Artifact Of Lifegiver");
            reveal_strlit("Artifact of Lifegiver");
            lemma_model_key_code(PickupModel::ArtifactOfLifegiver);
            assert(k =~= spec_model_key(PickupModel::ArtifactOfLifegiver));
            lemma_model_name_found(n, PickupModel::ArtifactOfLifegiver);
        },
        PickupType::ArtifactOfWarrior => {
            reveal_strlit("Artifact Of Warrior");
            reveal_strlit("Artifact of Warrior");
            lemma_model_key_code(PickupModel::ArtifactOfWarrior);
            assert(k =~= spec_model_key(PickupModel::ArtifactOfWarrior));
            lemma_model_name_found(n, PickupModel::ArtifactOfWarrior);
        },
        PickupType::ArtifactOfChozo => {
            reveal_strlit("Artifact Of Chozo");
            reveal_strlit("Artifact of Chozo");
            lemma_model_key_code(PickupModel::ArtifactOfChozo);
            assert(k =~= spec_model_key(PickupModel::ArtifactOfChozo));
            lemma_model_name_found(n, PickupModel::ArtifactOfChozo);
        },
        PickupType::ArtifactOfNature => {
            reveal_strlit("Artifact Of Nature");
            reveal_strlit("Artifact of Nature");
            lemma_model_key_code(PickupModel::ArtifactOfNature);
            assert(k =~= spec_model_key(PickupModel::ArtifactOfNature));
            lemma_model_name_found(n, PickupModel::ArtifactOfNature);
        },
        PickupType::ArtifactOfSun => {
            reveal_strlit("Artifact Of Sun");
            reveal_strlit("Artifact of Sun");
            lemma_model_key_code(PickupModel::ArtifactOfSun);
            assert(k =~= spec_model_key(PickupModel::ArtifactOfSun));
            lemma_model_name_found(n, PickupModel::ArtifactOfSun);
        },
        PickupType::ArtifactOfWorld => {
            reveal_strlit("Artifact Of World");
            reveal_strlit("Artifact of World");
            lemma_model_key_code(PickupModel::ArtifactOfWorld);
            assert(k =~= spec_model_key(PickupModel::ArtifactOfWorld));
            lemma_model_name_found(n, PickupModel::ArtifactOfWorld);
        },
        PickupType::ArtifactOfSpirit => {
            reveal_strlit("Artifact Of Spirit");
            reveal_strlit("Artifact of Spirit");
            lemma_model_key_code(PickupModel::ArtifactOfSpirit);
            assert(k =~= spec_model_key(PickupModel::ArtifactOfSpirit));
            lemma_model_name_found(n, PickupModel::ArtifactOfSpirit);
        },
        PickupType::ArtifactOfNewborn => {
            reveal_strlit("Artifact Of Newborn");
            reveal_strlit("Artifact of Newborn");
            lemma_model_key_code(PickupModel::ArtifactOfNewborn);
            assert(k =~= spec_model_key(PickupModel::ArtifactOfNewborn));
            lemma_model_name_found(n, PickupModel::ArtifactOfNewborn);
        },
        PickupType::Nothing => {
            lemma_model_key_code(PickupModel::Nothing);
            lemma_model_name_found(n, PickupModel::Nothing);
        },
    }
}

} // verus!
