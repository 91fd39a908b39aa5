//! The items a new save file starts with.
use vstd::prelude::*;

verus! {

/// The items a new save file starts with: a count for the expansions and a
/// flag for every other item.
#[derive(Clone, Copy, Debug, PartialEq, Eq, Structural)]
pub struct StartingItems {
    pub scan_visor: bool,
    pub missiles: u8,
    pub energy_tanks: u8,
    pub power_bombs: u8,
    pub wave: bool,
    pub ice: bool,
    pub plasma: bool,
    pub charge: bool,
    pub morph_ball: bool,
    pub bombs: bool,
    pub spider_ball: bool,
    pub boost_ball: bool,
    pub varia_suit: bool,
    pub gravity_suit: bool,
    pub phazon_suit: bool,
    pub thermal_visor: bool,
    pub xray: bool,
    pub space_jump: bool,
    pub grapple: bool,
    pub super_missile: bool,
    pub wavebuster: bool,
    pub ice_spreader: bool,
    pub flamethrower: bool,
}

/// The `width` bits of `v` from bit `shift` on.
pub open spec fn spec_bits(v: u64, shift: u64, width: u64) -> u64 {
    (v >> shift) & (((1u64 << width) - 1) as u64)
}

/// Bit `shift` of `v`.
pub open spec fn spec_bit(v: u64, shift: u64) -> bool {
    spec_bits(v, shift, 1) == 1
}

/// The items a 64-bit word encodes, from its lowest bit up: the scan visor
/// (1 bit), missiles (8 bits), energy tanks (4 bits), power bombs (4 bits),
/// then one bit each for wave, ice, plasma, charge, morph ball, bombs, spider
/// ball, boost ball, varia suit, gravity suit, phazon suit, thermal visor,
/// X-ray visor, space jump, grapple, super missile, wavebuster, ice spreader
/// and flamethrower.
pub open spec fn spec_from_u64(v: u64) -> StartingItems {
    StartingItems {
        scan_visor: spec_bit(v, 0),
        missiles: spec_bits(v, 1, 8) as u8,
        energy_tanks: spec_bits(v, 9, 4) as u8,
        power_bombs: spec_bits(v, 13, 4) as u8,
        wave: spec_bit(v, 17),
        ice: spec_bit(v, 18),
        plasma: spec_bit(v, 19),
        charge: spec_bit(v, 20),
        morph_ball: spec_bit(v, 21),
        bombs: spec_bit(v, 22),
        spider_ball: spec_bit(v, 23),
        boost_ball: spec_bit(v, 24),
        varia_suit: spec_bit(v, 25),
        gravity_suit: spec_bit(v, 26),
        phazon_suit: spec_bit(v, 27),
        thermal_visor: spec_bit(v, 28),
        xray: spec_bit(v, 29),
        space_jump: spec_bit(v, 30),
        grapple: spec_bit(v, 31),
        super_missile: spec_bit(v, 32),
        wavebuster: spec_bit(v, 33),
        ice_spreader: spec_bit(v, 34),
        flamethrower: spec_bit(v, 35),
    }
}

/// `a + b`, capped at `cap`.
pub open spec fn capped_sum(a: u8, b: u8, cap: u8) -> u8 {
    if a + b < cap {
        (a + b) as u8
    } else {
        cap
    }
}

/// The items of both sets: every flag of either, and each count the sum of
/// both, capped at 250 missiles, 14 energy tanks and 8 power bombs.
pub open spec fn spec_merge(a: StartingItems, b: StartingItems) -> StartingItems {
    StartingItems {
        scan_visor: a.scan_visor || b.scan_visor,
        missiles: capped_sum(a.missiles, b.missiles, 250),
        energy_tanks: capped_sum(a.energy_tanks, b.energy_tanks, 14),
        power_bombs: capped_sum(a.power_bombs, b.power_bombs, 8),
        wave: a.wave || b.wave,
        ice: a.ice || b.ice,
        plasma: a.plasma || b.plasma,
        charge: a.charge || b.charge,
        morph_ball: a.morph_ball || b.morph_ball,
        bombs: a.bombs || b.bombs,
        spider_ball: a.spider_ball || b.spider_ball,
        boost_ball: a.boost_ball || b.boost_ball,
        varia_suit: a.varia_suit || b.varia_suit,
        gravity_suit: a.gravity_suit || b.gravity_suit,
        phazon_suit: a.phazon_suit || b.phazon_suit,
        thermal_visor: a.thermal_visor || b.thermal_visor,
        xray: a.xray || b.xray,
        space_jump: a.space_jump || b.space_jump,
        grapple: a.grapple || b.grapple,
        super_missile: a.super_missile || b.super_missile,
        wavebuster: a.wavebuster || b.wavebuster,
        ice_spreader: a.ice_spreader || b.ice_spreader,
        flamethrower: a.flamethrower || b.flamethrower,
    }
}

/// Whether no item is set: every flag off and every count zero.
pub open spec fn spec_is_empty(s: StartingItems) -> bool {
    &&& !s.scan_visor
    &&& s.missiles == 0
    &&& s.energy_tanks == 0
    &&& s.power_bombs == 0
    &&& !s.wave
    &&& !s.ice
    &&& !s.plasma
    &&& !s.charge
    &&& !s.morph_ball
    &&& !s.bombs
    &&& !s.spider_ball
    &&& !s.boost_ball
    &&& !s.varia_suit
    &&& !s.gravity_suit
    &&& !s.phazon_suit
    &&& !s.thermal_visor
    &&& !s.xray
    &&& !s.space_jump
    &&& !s.grapple
    &&& !s.super_missile
    &&& !s.wavebuster
    &&& !s.ice_spreader
    &&& !s.flamethrower
}

/// Whether the counts of `a` and `b` add up without passing 255.
pub open spec fn spec_counts_add(a: StartingItems, b: StartingItems) -> bool {
    &&& a.missiles + b.missiles <= 255
    &&& a.energy_tanks + b.energy_tanks <= 255
    &&& a.power_bombs + b.power_bombs <= 255
}

/// The `width` bits of `v` from bit `shift` on, as a byte.
fn bits(v: u64, shift: u64, width: u64) -> (r: u8)
    requires
        shift < 64,
        1 <= width <= 8,
    ensures
        r == spec_bits(v, shift, width) as u8,
        spec_bits(v, shift, width) < 256,
{
    assert(shift < 64 && 1 <= width <= 8 ==> (1u64 << width) >= 1 && (v >> shift) & (((1u64 << width) - 1) as u64)
        < 256) by (bit_vector);
    ((v >> shift) & ((1u64 << width) - 1)) as u8
}

impl StartingItems {
    /// Decodes the items of a 64-bit word (see `spec_from_u64`); the bits
    /// above the 36th are ignored.
    pub fn from_u64(starting_items: u64) -> (r: Self)
        ensures
            r == spec_from_u64(starting_items),
    {
        let v = starting_items;
        let scan_visor = bits(v, 0, 1) == 1;
        let missiles = bits(v, 1, 8);
        let energy_tanks = bits(v, 9, 4);
        let power_bombs = bits(v, 13, 4);
        let wave = bits(v, 17, 1) == 1;
        let ice = bits(v, 18, 1) == 1;
        let plasma = bits(v, 19, 1) == 1;
        let charge = bits(v, 20, 1) == 1;
        let morph_ball = bits(v, 21, 1) == 1;
        let bombs = bits(v, 22, 1) == 1;
        let spider_ball = bits(v, 23, 1) == 1;
        let boost_ball = bits(v, 24, 1) == 1;
        let varia_suit = bits(v, 25, 1) == 1;
        let gravity_suit = bits(v, 26, 1) == 1;
        let phazon_suit = bits(v, 27, 1) == 1;
        let thermal_visor = bits(v, 28, 1) == 1;
        let xray = bits(v, 29, 1) == 1;
        let space_jump = bits(v, 30, 1) == 1;
        let grapple = bits(v, 31, 1) == 1;
        let super_missile = bits(v, 32, 1) == 1;
        let wavebuster = bits(v, 33, 1) == 1;
        let ice_spreader = bits(v, 34, 1) == 1;
        let flamethrower = bits(v, 35, 1) == 1;
        StartingItems {
            scan_visor,
            missiles,
            energy_tanks,
            power_bombs,
            wave,
            ice,
            plasma,
            charge,
            morph_ball,
            bombs,
            spider_ball,
            boost_ball,
            varia_suit,
            gravity_suit,
            phazon_suit,
            thermal_visor,
            xray,
            space_jump,
            grapple,
            super_missile,
            wavebuster,
            ice_spreader,
            flamethrower,
        }
    }

    /// The items of both sets (see `spec_merge`).
    pub fn merge(manual_starting_items: StartingItems, random_starting_items: StartingItems) -> (r: Self)
        requires
            spec_counts_add(manual_starting_items, random_starting_items),
        ensures
            r == spec_merge(manual_starting_items, random_starting_items),
    {
        let a = manual_starting_items;
        let b = random_starting_items;
        StartingItems {
            scan_visor: either(a.scan_visor, b.scan_visor),
            missiles: min_u8(a.missiles + b.missiles, 250),
            energy_tanks: min_u8(a.energy_tanks + b.energy_tanks, 14),
            power_bombs: min_u8(a.power_bombs + b.power_bombs, 8),
            wave: either(a.wave, b.wave),
            ice: either(a.ice, b.ice),
            plasma: either(a.plasma, b.plasma),
            charge: either(a.charge, b.charge),
            morph_ball: either(a.morph_ball, b.morph_ball),
            bombs: either(a.bombs, b.bombs),
            spider_ball: either(a.spider_ball, b.spider_ball),
            boost_ball: either(a.boost_ball, b.boost_ball),
            varia_suit: either(a.varia_suit, b.varia_suit),
            gravity_suit: either(a.gravity_suit, b.gravity_suit),
            phazon_suit: either(a.phazon_suit, b.phazon_suit),
            thermal_visor: either(a.thermal_visor, b.thermal_visor),
            xray: either(a.xray, b.xray),
            space_jump: either(a.space_jump, b.space_jump),
            grapple: either(a.grapple, b.grapple),
            super_missile: either(a.super_missile, b.super_missile),
            wavebuster: either(a.wavebuster, b.wavebuster),
            ice_spreader: either(a.ice_spreader, b.ice_spreader),
            flamethrower: either(a.flamethrower, b.flamethrower),
        }
    }

    /// Whether no item is set.
    pub fn is_empty(&self) -> (r: bool)
        ensures
            r == spec_is_empty(*self),
    {
        !self.scan_visor && self.missiles == 0 && self.energy_tanks == 0 && self.power_bombs == 0
            && !self.wave && !self.ice && !self.plasma && !self.charge && !self.morph_ball
            && !self.bombs && !self.spider_ball && !self.boost_ball && !self.varia_suit
            && !self.gravity_suit && !self.phazon_suit && !self.thermal_visor && !self.xray
            && !self.space_jump && !self.grapple && !self.super_missile && !self.wavebuster
            && !self.ice_spreader && !self.flamethrower
    }
}

impl Default for StartingItems {
    /// The scan visor alone.
    fn default() -> (r: Self)
        ensures
            r == spec_from_u64(1),
    {
        proof {
            assert(spec_bits(1, 0, 1) == 1) by (bit_vector);
            assert forall|s: u64, w: u64| 1 <= s < 64 && 1 <= w <= 8 implies #[trigger] spec_bits(1, s, w) == 0 by {
                assert(1 <= s < 64 && 1 <= w <= 8 ==> (1u64 >> s) & (((1u64 << w) - 1) as u64) == 0)
                    by (bit_vector);
            }
        }
        StartingItems {
            scan_visor: true,
            missiles: 0,
            energy_tanks: 0,
            power_bombs: 0,
            wave: false,
            ice: false,
            plasma: false,
            charge: false,
            morph_ball: false,
            bombs: false,
            spider_ball: false,
            boost_ball: false,
            varia_suit: false,
            gravity_suit: false,
            phazon_suit: false,
            thermal_visor: false,
            xray: false,
            space_jump: false,
            grapple: false,
            super_missile: false,
            wavebuster: false,
            ice_spreader: false,
            flamethrower: false,
        }
    }
}

/// Whether `a` or `b` holds.
fn either(a: bool, b: bool) -> (r: bool)
    ensures
        r == (a || b),
{
    a || b
}

/// The smaller of `a` and `b`.
fn min_u8(a: u8, b: u8) -> (r: u8)
    ensures
        r == if a < b {
            a
        } else {
            b
        },
{
    if a < b {
        a
    } else {
        b
    }
}

/// Merging is symmetric.
pub proof fn lemma_merge_commutes(a: StartingItems, b: StartingItems)
    ensures
        spec_merge(a, b) == spec_merge(b, a),
{
    assert(capped_sum(a.missiles, b.missiles, 250) == capped_sum(b.missiles, a.missiles, 250));
    assert(capped_sum(a.energy_tanks, b.energy_tanks, 14) == capped_sum(b.energy_tanks, a.energy_tanks, 14));
    assert(capped_sum(a.power_bombs, b.power_bombs, 8) == capped_sum(b.power_bombs, a.power_bombs, 8));
}

/// Merging an empty set changes nothing where the counts are within their
/// caps.
pub proof fn lemma_merge_empty(a: StartingItems, e: StartingItems)
    requires
        spec_is_empty(e),
        a.missiles <= 250,
        a.energy_tanks <= 14,
        a.power_bombs <= 8,
    ensures
        spec_merge(a, e) == a,
{
}

/// A merge is empty exactly where both sets are.
pub proof fn lemma_merge_is_empty(a: StartingItems, b: StartingItems)
    ensures
        spec_is_empty(spec_merge(a, b)) <==> spec_is_empty(a) && spec_is_empty(b),
{
}

/// The word 0 holds no item.
pub proof fn lemma_zero_is_empty()
    ensures
        spec_is_empty(spec_from_u64(0)),
{
    assert forall|s: u64, w: u64| s < 64 && 1 <= w <= 8 implies #[trigger] spec_bits(0, s, w) == 0 by {
        assert((0u64 >> s) & (((1u64 << w) - 1) as u64) == 0) by (bit_vector);
    }
}


/// The layout of a starting-items word, field by field from its lowest bit:
/// the scan visor is bit 0, missiles bits 1 to 8, energy tanks bits 9 to 12,
/// power bombs bits 13 to 16, then one bit each from bit 17 on: wave, ice
/// (18), plasma (19), charge, morph ball, bombs, spider ball, boost ball,
/// varia, gravity and phazon suits, thermal visor, X-ray visor, space jump,
/// grapple, super missile, wavebuster, ice spreader and flamethrower (35).
pub proof fn lemma_from_u64_layout(v: u64)
    ensures
        spec_from_u64(v).scan_visor == (v & 1u64 == 1u64),
        spec_from_u64(v).missiles as u64 == (v >> 1u64) & 0xffu64,
        spec_from_u64(v).energy_tanks as u64 == (v >> 9u64) & 0xfu64,
        spec_from_u64(v).power_bombs as u64 == (v >> 13u64) & 0xfu64,
        spec_from_u64(v).wave == ((v >> 17u64) & 1u64 == 1u64),
        spec_from_u64(v).ice == ((v >> 18u64) & 1u64 == 1u64),
        spec_from_u64(v).plasma == ((v >> 19u64) & 1u64 == 1u64),
        spec_from_u64(v).charge == ((v >> 20u64) & 1u64 == 1u64),
        spec_from_u64(v).morph_ball == ((v >> 21u64) & 1u64 == 1u64),
        spec_from_u64(v).bombs == ((v >> 22u64) & 1u64 == 1u64),
        spec_from_u64(v).spider_ball == ((v >> 23u64) & 1u64 == 1u64),
        spec_from_u64(v).boost_ball == ((v >> 24u64) & 1u64 == 1u64),
        spec_from_u64(v).varia_suit == ((v >> 25u64) & 1u64 == 1u64),
        spec_from_u64(v).gravity_suit == ((v >> 26u64) & 1u64 == 1u64),
        spec_from_u64(v).phazon_suit == ((v >> 27u64) & 1u64 == 1u64),
        spec_from_u64(v).thermal_visor == ((v >> 28u64) & 1u64 == 1u64),
        spec_from_u64(v).xray == ((v >> 29u64) & 1u64 == 1u64),
        spec_from_u64(v).space_jump == ((v >> 30u64) & 1u64 == 1u64),
        spec_from_u64(v).grapple == ((v >> 31u64) & 1u64 == 1u64),
        spec_from_u64(v).super_missile == ((v >> 32u64) & 1u64 == 1u64),
        spec_from_u64(v).wavebuster == ((v >> 33u64) & 1u64 == 1u64),
        spec_from_u64(v).ice_spreader == ((v >> 34u64) & 1u64 == 1u64),
        spec_from_u64(v).flamethrower == ((v >> 35u64) & 1u64 == 1u64),
{
    assert(((1u64 << 1u64) - 1) as u64 == 1u64 && ((1u64 << 8u64) - 1) as u64 == 0xffu64 && ((1u64 << 4u64) - 1) as u64
        == 0xfu64 && (v >> 1u64) & 0xffu64 < 256 && (v >> 9u64) & 0xfu64 < 256 && (v >> 13u64) & 0xfu64 < 256 && v >> 0u64
        == v) by (bit_vector);
}

/// A word with only bit `k` set, for `k` from 17 to 35, gives exactly one
/// item: the flag that bit stands for, and nothing else.
pub proof fn lemma_single_bit_gives_one_item(k: u64)
    requires
        17 <= k <= 35,
    ensures
        ({
            let s = spec_from_u64(1u64 << k);
            &&& s.scan_visor == false && s.missiles == 0 && s.energy_tanks == 0 && s.power_bombs == 0
            &&& s.wave == (k == 17) && s.ice == (k == 18) && s.plasma == (k == 19) && s.charge == (k == 20)
            &&& s.morph_ball == (k == 21) && s.bombs == (k == 22) && s.spider_ball == (k == 23)
            &&& s.boost_ball == (k == 24) && s.varia_suit == (k == 25) && s.gravity_suit == (k == 26)
            &&& s.phazon_suit == (k == 27) && s.thermal_visor == (k == 28) && s.xray == (k == 29)
            &&& s.space_jump == (k == 30) && s.grapple == (k == 31) && s.super_missile == (k == 32)
            &&& s.wavebuster == (k == 33) && s.ice_spreader == (k == 34) && s.flamethrower == (k == 35)
        }),
{
    let v = 1u64 << k;
    lemma_from_u64_layout(v);
    assert(17u64 <= k <= 35u64 ==> v & 1u64 == 0u64 && (v >> 1u64) & 0xffu64 == 0u64 && (v >> 9u64) & 0xfu64 == 0u64
        && (v >> 13u64) & 0xfu64 == 0u64) by (bit_vector)
        requires
            v == 1u64 << k,
    ;
    assert forall|j: u64| 17 <= j <= 35 implies (((v >> j) & 1u64 == 1u64) <==> j == k) by {
        assert(17u64 <= j <= 35u64 && 17u64 <= k <= 35u64 ==> (((v >> j) & 1u64 == 1u64) <==> j == k)) by (bit_vector)
            requires
                v == 1u64 << k,
        ;
    }
    assert(((v >> 17u64) & 1u64 == 1u64) <==> k == 17);
    assert(((v >> 18u64) & 1u64 == 1u64) <==> k == 18);
    assert(((v >> 19u64) & 1u64 == 1u64) <==> k == 19);
    assert(((v >> 20u64) & 1u64 == 1u64) <==> k == 20);
    assert(((v >> 21u64) & 1u64 == 1u64) <==> k == 21);
    assert(((v >> 22u64) & 1u64 == 1u64) <==> k == 22);
    assert(((v >> 23u64) & 1u64 == 1u64) <==> k == 23);
    assert(((v >> 24u64) & 1u64 == 1u64) <==> k == 24);
    assert(((v >> 25u64) & 1u64 == 1u64) <==> k == 25);
    assert(((v >> 26u64) & 1u64 == 1u64) <==> k == 26);
    assert(((v >> 27u64) & 1u64 == 1u64) <==> k == 27);
    assert(((v >> 28u64) & 1u64 == 1u64) <==> k == 28);
    assert(((v >> 29u64) & 1u64 == 1u64) <==> k == 29);
    assert(((v >> 30u64) & 1u64 == 1u64) <==> k == 30);
    assert(((v >> 31u64) & 1u64 == 1u64) <==> k == 31);
    assert(((v >> 32u64) & 1u64 == 1u64) <==> k == 32);
    assert(((v >> 33u64) & 1u64 == 1u64) <==> k == 33);
    assert(((v >> 34u64) & 1u64 == 1u64) <==> k == 34);
    assert(((v >> 35u64) & 1u64 == 1u64) <==> k == 35);
}


/// Bit `k` of `x | y` is set where it is set in `x` or in `y`.
proof fn lemma_or_bit(x: u64, y: u64, k: u64)
    by (bit_vector)
    requires
        k < 64,
    ensures
        (((x | y) >> k) & 1u64 == 1u64) == (((x >> k) & 1u64 == 1u64) || ((y >> k) & 1u64 == 1u64)),
        ((x | y) & 1u64 == 1u64) == ((x & 1u64 == 1u64) || (y & 1u64 == 1u64)),
{
}

/// Merging two decoded words sets an item flag where either word sets it:
/// the flags of the merge are those of the two words or-ed together.
#[verifier::rlimit(100)]
#[verifier::spinoff_prover]
pub proof fn lemma_merge_ors_flags(x: u64, y: u64)
    ensures
        ({
            let a = spec_from_u64(x);
            let b = spec_from_u64(y);
            &&& spec_merge(a, b).scan_visor == spec_from_u64(x | y).scan_visor
            &&& spec_merge(a, b).wave == spec_from_u64(x | y).wave
            &&& spec_merge(a, b).ice == spec_from_u64(x | y).ice
            &&& spec_merge(a, b).plasma == spec_from_u64(x | y).plasma
            &&& spec_merge(a, b).charge == spec_from_u64(x | y).charge
            &&& spec_merge(a, b).morph_ball == spec_from_u64(x | y).morph_ball
            &&& spec_merge(a, b).bombs == spec_from_u64(x | y).bombs
            &&& spec_merge(a, b).spider_ball == spec_from_u64(x | y).spider_ball
            &&& spec_merge(a, b).boost_ball == spec_from_u64(x | y).boost_ball
            &&& spec_merge(a, b).varia_suit == spec_from_u64(x | y).varia_suit
            &&& spec_merge(a, b).gravity_suit == spec_from_u64(x | y).gravity_suit
            &&& spec_merge(a, b).phazon_suit == spec_from_u64(x | y).phazon_suit
            &&& spec_merge(a, b).thermal_visor == spec_from_u64(x | y).thermal_visor
            &&& spec_merge(a, b).xray == spec_from_u64(x | y).xray
            &&& spec_merge(a, b).space_jump == spec_from_u64(x | y).space_jump
            &&& spec_merge(a, b).grapple == spec_from_u64(x | y).grapple
            &&& spec_merge(a, b).super_missile == spec_from_u64(x | y).super_missile
            &&& spec_merge(a, b).wavebuster == spec_from_u64(x | y).wavebuster
            &&& spec_merge(a, b).ice_spreader == spec_from_u64(x | y).ice_spreader
            &&& spec_merge(a, b).flamethrower == spec_from_u64(x | y).flamethrower
        }),
{
    let a = spec_from_u64(x);
    let b = spec_from_u64(y);
    lemma_from_u64_layout(x);
    lemma_from_u64_layout(y);
    lemma_from_u64_layout(x | y);
    lemma_or_bit(x, y, 17u64);
    assert(spec_merge(a, b).scan_visor == spec_from_u64(x | y).scan_visor);
    lemma_or_bit(x, y, 18u64);
    lemma_or_bit(x, y, 19u64);
    lemma_or_bit(x, y, 20u64);
    lemma_or_bit(x, y, 21u64);
    lemma_or_bit(x, y, 22u64);
    lemma_or_bit(x, y, 23u64);
    lemma_or_bit(x, y, 24u64);
    lemma_or_bit(x, y, 25u64);
    lemma_or_bit(x, y, 26u64);
    lemma_or_bit(x, y, 27u64);
    lemma_or_bit(x, y, 28u64);
    lemma_or_bit(x, y, 29u64);
    lemma_or_bit(x, y, 30u64);
    lemma_or_bit(x, y, 31u64);
    lemma_or_bit(x, y, 32u64);
    lemma_or_bit(x, y, 33u64);
    lemma_or_bit(x, y, 34u64);
    lemma_or_bit(x, y, 35u64);
}

} // verus!
