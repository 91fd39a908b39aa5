//! The texts of the totems in the Artifact Temple, each of which tells where
//! one of the twelve artifacts lies.
use vstd::prelude::*;
use rand::rngs::StdRng;
use crate::patch_config::{LevelConfig, PickupConfig, RoomConfig};
use crate::pickup_meta::{
    PickupType, lemma_type_of, spec_model_from_type, spec_pickup_models, spec_pickup_types, spec_type_name, spec_type_name_matches, spec_type_of,
};
use vstd::string::StringExecFns;
use crate::text::{
    lemma_name_key, lemma_replace_keeps_last, replace_all, spec_ascii_lowercase, spec_lowercase, spec_replace, spec_trim, str_eq,
    trimmed_lower,
};

verus! {

#[verifier::external_type_specification]
#[verifier::external_body]
pub struct ExStdRng(StdRng);

/// rand's `SliceRandom::shuffle`: puts the entries of `v` in an order drawn
/// from `rng`. Which order it draws, and how `rng` moves on, is left unsaid;
/// the entries stay the same.
#[verifier::external_body]
fn shuffle<T>(v: &mut Vec<T>, rng: &mut StdRng)
    ensures
        final(v)@.to_multiset() == old(v)@.to_multiset(),
{
    rand::seq::SliceRandom::shuffle(v.as_mut_slice(), rng);
}

/// The number of totems, one for each artifact.
pub const TOTEM_COUNT: usize = 12;

/// The totem that tells of an artifact, by its place in the temple; none for
/// a pickup that is no artifact.
pub open spec fn spec_totem_of(t: PickupType) -> Option<usize> {
    match t {
        PickupType::ArtifactOfLifegiver => Some(0usize),
        PickupType::ArtifactOfWild => Some(1usize),
        PickupType::ArtifactOfWorld => Some(2usize),
        PickupType::ArtifactOfSun => Some(3usize),
        PickupType::ArtifactOfElder => Some(4usize),
        PickupType::ArtifactOfSpirit => Some(5usize),
        PickupType::ArtifactOfTruth => Some(6usize),
        PickupType::ArtifactOfChozo => Some(7usize),
        PickupType::ArtifactOfWarrior => Some(8usize),
        PickupType::ArtifactOfNewborn => Some(9usize),
        PickupType::ArtifactOfNature => Some(10usize),
        PickupType::ArtifactOfStrength => Some(11usize),
        _ => None,
    }
}

/// The totem that tells of an artifact; none for a pickup that is no
/// artifact.
pub fn totem_of(t: PickupType) -> (r: Option<usize>)
    ensures
        r == spec_totem_of(t),
{
    match t {
        PickupType::ArtifactOfLifegiver => Some(0),
        PickupType::ArtifactOfWild => Some(1),
        PickupType::ArtifactOfWorld => Some(2),
        PickupType::ArtifactOfSun => Some(3),
        PickupType::ArtifactOfElder => Some(4),
        PickupType::ArtifactOfSpirit => Some(5),
        PickupType::ArtifactOfTruth => Some(6),
        PickupType::ArtifactOfChozo => Some(7),
        PickupType::ArtifactOfWarrior => Some(8),
        PickupType::ArtifactOfNewborn => Some(9),
        PickupType::ArtifactOfNature => Some(10),
        PickupType::ArtifactOfStrength => Some(11),
        _ => None,
    }
}

/// The key a hint is given under: its artifact's name, trimmed, in lowercase.
pub open spec fn spec_hint_key(name: Seq<char>) -> Seq<char> {
    spec_lowercase(spec_trim(name))
}

/// The totem a hint key names, if any.
pub open spec fn spec_hint_totem(key: Seq<char>) -> Option<usize> {
    if key == "lifegiver"@ {
        Some(0usize)
    } else if key == "wild"@ {
        Some(1usize)
    } else if key == "world"@ {
        Some(2usize)
    } else if key == "sun"@ {
        Some(3usize)
    } else if key == "elder"@ {
        Some(4usize)
    } else if key == "spirit"@ {
        Some(5usize)
    } else if key == "truth"@ {
        Some(6usize)
    } else if key == "chozo"@ {
        Some(7usize)
    } else if key == "warrior"@ {
        Some(8usize)
    } else if key == "newborn"@ {
        Some(9usize)
    } else if key == "nature"@ {
        Some(10usize)
    } else if key == "strength"@ {
        Some(11usize)
    } else {
        None
    }
}

/// The totem whose artifact `name` names, trimmed and without regard to
/// case; none where it names no artifact.
pub fn hint_totem(name: &str) -> (r: Option<usize>)
    ensures
        r == spec_hint_totem(spec_hint_key(name@)),
{
    let key = trimmed_lower(name);
    let k = key.as_str();
    if str_eq(k, "lifegiver") {
        Some(0)
    } else if str_eq(k, "wild") {
        Some(1)
    } else if str_eq(k, "world") {
        Some(2)
    } else if str_eq(k, "sun") {
        Some(3)
    } else if str_eq(k, "elder") {
        Some(4)
    } else if str_eq(k, "spirit") {
        Some(5)
    } else if str_eq(k, "truth") {
        Some(6)
    } else if str_eq(k, "chozo") {
        Some(7)
    } else if str_eq(k, "warrior") {
        Some(8)
    } else if str_eq(k, "newborn") {
        Some(9)
    } else if str_eq(k, "nature") {
        Some(10)
    } else if str_eq(k, "strength") {
        Some(11)
    } else {
        None
    }
}

/// Whether `s` names a pickup kind.
pub open spec fn spec_type_known(s: Seq<char>) -> bool {
    exists|i: int| 0 <= i < 42 && spec_type_name_matches(s, #[trigger] spec_pickup_types()[i])
}

/// The pickups a room lists.
pub open spec fn spec_room_pickups(r: RoomConfig) -> Seq<PickupConfig> {
    match r.pickups {
        Some(v) => v@,
        None => Seq::empty(),
    }
}

/// The pickup at place `c` of room `b` of world `a`.
pub open spec fn spec_pickup_at(levels: Seq<(String, LevelConfig)>, a: int, b: int, c: int) -> PickupConfig {
    spec_room_pickups(levels[a].1.rooms@[b].1)[c]
}

/// Whether every pickup of every room names a pickup kind.
pub open spec fn spec_types_known(levels: Seq<(String, LevelConfig)>) -> bool {
    forall|a: int, b: int, c: int|
        0 <= a < levels.len() && 0 <= b < levels[a].1.rooms@.len() && 0 <= c < spec_room_pickups(
            levels[a].1.rooms@[b].1,
        ).len() ==> spec_type_known(#[trigger] spec_pickup_at(levels, a, b, c).pickup_type@)
}

/// Whether every hint names an artifact.
pub open spec fn spec_hints_known(hints: Option<Vec<(String, String)>>) -> bool {
    match hints {
        Some(v) => forall|i: int|
            0 <= i < v@.len() ==> (#[trigger] spec_hint_totem(spec_hint_key(v@[i].0@))) is Some,
        None => true,
    }
}

/// The artifacts among a room's pickups, each with the room's name, in order.
pub open spec fn spec_room_artifacts(room: Seq<char>, pickups: Seq<PickupConfig>) -> Seq<(Seq<char>, PickupType)>
    decreases pickups.len(),
{
    if pickups.len() == 0 {
        Seq::empty()
    } else {
        let before = spec_room_artifacts(room, pickups.drop_last());
        let t = spec_type_of(pickups.last().pickup_type@);
        if spec_totem_of(t) is Some {
            before.push((room, t))
        } else {
            before
        }
    }
}

/// The artifacts in a list of rooms, in order.
pub open spec fn spec_rooms_artifacts(rooms: Seq<(String, RoomConfig)>) -> Seq<(Seq<char>, PickupType)>
    decreases rooms.len(),
{
    if rooms.len() == 0 {
        Seq::empty()
    } else {
        spec_rooms_artifacts(rooms.drop_last()) + spec_room_artifacts(
            rooms.last().0@,
            spec_room_pickups(rooms.last().1),
        )
    }
}

/// The artifacts in all worlds, in order.
pub open spec fn spec_levels_artifacts(levels: Seq<(String, LevelConfig)>) -> Seq<(Seq<char>, PickupType)>
    decreases levels.len(),
{
    if levels.len() == 0 {
        Seq::empty()
    } else {
        spec_levels_artifacts(levels.drop_last()) + spec_rooms_artifacts(levels.last().1.rooms@)
    }
}

/// The artifacts in all worlds, each with the name of its room, in the order
/// of worlds, rooms and pickups.
fn artifact_locations<'a>(level_data: &'a Vec<(String, LevelConfig)>) -> (r: Vec<(&'a str, PickupType)>)
    requires
        spec_types_known(level_data@),
    ensures
        r@.map_values(|p: (&'a str, PickupType)| (p.0@, p.1)) == spec_levels_artifacts(level_data@),
        forall|i: int| 0 <= i < r@.len() ==> (#[trigger] spec_totem_of(r@[i].1)) is Some,
{
    let mut out: Vec<(&'a str, PickupType)> = Vec::new();
    let mut a: usize = 0;
    while a < level_data.len()
        invariant
            0 <= a <= level_data@.len(),
            spec_types_known(level_data@),
            out@.map_values(|p: (&'a str, PickupType)| (p.0@, p.1)) == spec_levels_artifacts(
                level_data@.take(a as int),
            ),
            forall|i: int| 0 <= i < out@.len() ==> (#[trigger] spec_totem_of(out@[i].1)) is Some,
        decreases level_data@.len() - a,
    {
        let rooms = &level_data[a].1.rooms;
        let ghost before = out@.map_values(|p: (&'a str, PickupType)| (p.0@, p.1));
        let mut b: usize = 0;
        while b < rooms.len()
            invariant
                0 <= a < level_data@.len(),
                0 <= b <= rooms@.len(),
                rooms@ == level_data@[a as int].1.rooms@,
                spec_types_known(level_data@),
                out@.map_values(|p: (&'a str, PickupType)| (p.0@, p.1)) == before + spec_rooms_artifacts(
                    rooms@.take(b as int),
                ),
                forall|i: int| 0 <= i < out@.len() ==> (#[trigger] spec_totem_of(out@[i].1)) is Some,
            decreases rooms@.len() - b,
        {
            let room_name = rooms[b].0.as_str();
            let ghost mid = out@.map_values(|p: (&'a str, PickupType)| (p.0@, p.1));
            let ghost pickups = spec_room_pickups(rooms@[b as int].1);
            match &rooms[b].1.pickups {
                Some(list) => {
                    let mut c: usize = 0;
                    while c < list.len()
                        invariant
                            0 <= a < level_data@.len(),
                            0 <= b < rooms@.len(),
                            rooms@ == level_data@[a as int].1.rooms@,
                            pickups == list@,
                            pickups == spec_room_pickups(rooms@[b as int].1),
                            room_name@ == rooms@[b as int].0@,
                            0 <= c <= list@.len(),
                            spec_types_known(level_data@),
                            out@.map_values(|p: (&'a str, PickupType)| (p.0@, p.1)) == mid
                                + spec_room_artifacts(room_name@, list@.take(c as int)),
                            forall|i: int| 0 <= i < out@.len() ==> (#[trigger] spec_totem_of(out@[i].1)) is Some,
                        decreases list@.len() - c,
                    {
                        proof {
                            assert(spec_pickup_at(level_data@, a as int, b as int, c as int) == list@[c as int]);
                        }
                        let t = PickupType::from_str(list[c].pickup_type.as_str());
                        proof {
                            lemma_type_of(list@[c as int].pickup_type@, t);
                            assert(list@.take(c + 1).drop_last() =~= list@.take(c as int));
                            assert(list@.take(c + 1).last() == list@[c as int]);
                        }
                        let ghost old_out = out@;
                        if let Some(_) = totem_of(t) {
                            out.push((room_name, t));
                            proof {
                                assert(out@.map_values(|p: (&'a str, PickupType)| (p.0@, p.1)) =~= old_out.map_values(
                                    |p: (&'a str, PickupType)| (p.0@, p.1),
                                ).push((room_name@, t)));
                            }
                        }
                        c = c + 1;
                    }
                    proof {
                        assert(list@.take(list@.len() as int) =~= list@);
                    }
                },
                None => {
                    proof {
                        assert(spec_room_artifacts(room_name@, pickups) =~= Seq::empty());
                    }
                },
            }
            proof {
                assert(rooms@.take(b + 1).drop_last() =~= rooms@.take(b as int));
                assert(rooms@.take(b + 1).last() == rooms@[b as int]);
                assert(out@.map_values(|p: (&'a str, PickupType)| (p.0@, p.1)) =~= before + spec_rooms_artifacts(
                    rooms@.take(b + 1),
                ));
            }
            b = b + 1;
        }
        proof {
            assert(rooms@.take(rooms@.len() as int) =~= rooms@);
            assert(level_data@.take(a + 1).drop_last() =~= level_data@.take(a as int));
            assert(level_data@.take(a + 1).last() == level_data@[a as int]);
        }
        a = a + 1;
    }
    proof {
        assert(level_data@.take(level_data@.len() as int) =~= level_data@);
    }
    out
}

/// The hints a totem gives where no room has one of its own; the templates
/// are handed out in a shuffled order. `{room}` stands for the room and
/// `{pickup}` for the artifact.
pub const GENERIC_TEMPLATE_0: &'static str = "I mean, maybe it'll be in &push;&main-color=#43CD80;{room}&pop;. I forgot, to be honest.\0";
pub const GENERIC_TEMPLATE_1: &'static str = "I'm not sure where the artifact exactly is, but like, you can try &push;&main-color=#43CD80;{room}&pop;.\0";
pub const GENERIC_TEMPLATE_2: &'static str = "Hey man, some of the Chozo are telling me that there might be a thing in &push;&main-color=#43CD80;{room}&pop;. Just sayin'.\0";
pub const GENERIC_TEMPLATE_3: &'static str = "Uhh umm... Where was it...? Uhhh, errr, it's definitely in &push;&main-color=#43CD80;{room}&pop;! I am 100% not totally making it up...\0";
pub const GENERIC_TEMPLATE_4: &'static str = "Some say it may be in &push;&main-color=#43CD80;{room}&pop;. Others say that you have no business here. Please leave me alone.\0";
pub const GENERIC_TEMPLATE_5: &'static str = "A buddy and I were drinking and thought 'Hey, wouldn't be crazy if we put it in &push;&main-color=#43CD80;{room}&pop;?' It took both of us just to put it there!\0";
pub const GENERIC_TEMPLATE_6: &'static str = "So, uhhh, I kind of got lazy and just dropped mine somewhere... Maybe it's in the &push;&main-color=#43CD80;{room}&pop;? Who knows.\0";
pub const GENERIC_TEMPLATE_7: &'static str = "I was super late and someone had to cover for me. She said she put it in &push;&main-color=#43CD80;{room}&pop;, so you'll just have to trust her.\0";
pub const GENERIC_TEMPLATE_8: &'static str = "Okay, so this jerk forgets to hide his so I had to hide two. This is literally saving the planet. Anyways, mine is in &push;&main-color=#43CD80;{room}&pop;.\0";
pub const GENERIC_TEMPLATE_9: &'static str = "To be honest, I don't really remember. I think it was... um... yeah we'll just go with that: It was &push;&main-color=#43CD80;{room}&pop;.\0";
pub const GENERIC_TEMPLATE_10: &'static str = "Hear the words of Oh Leer, last Chozo of the Artifact Temple. May they serve you... Alright, whatever. It's in &push;&main-color=#43CD80;{room}&pop;.\0";
pub const GENERIC_TEMPLATE_11: &'static str = "I kind of just played Frisbee with mine. It flew too far and I didn't see where it landed. Somewhere in &push;&main-color=#43CD80;{room}&pop;.\0";

/// The hint a totem gives where its artifact lies in the Artifact Temple
/// itself; it is given once.
pub const TEMPLE_TEMPLATE: &'static str = "{pickup} awaits those who truly seek it.\0";

/// The room with a hint of its own.
pub const TEMPLE_ROOM: &'static str = "Artifact Temple";

/// What a totem says of an artifact that lies nowhere.
pub const ABSENT_TEXT: &'static str = "Artifact not present. This layout may not be completable.\0";

/// The generic template at place `k`.
pub open spec fn spec_generic_template(k: int) -> Seq<char> {
    if k == 0 {
        GENERIC_TEMPLATE_0@
    } else     if k == 1 {
        GENERIC_TEMPLATE_1@
    } else     if k == 2 {
        GENERIC_TEMPLATE_2@
    } else     if k == 3 {
        GENERIC_TEMPLATE_3@
    } else     if k == 4 {
        GENERIC_TEMPLATE_4@
    } else     if k == 5 {
        GENERIC_TEMPLATE_5@
    } else     if k == 6 {
        GENERIC_TEMPLATE_6@
    } else     if k == 7 {
        GENERIC_TEMPLATE_7@
    } else     if k == 8 {
        GENERIC_TEMPLATE_8@
    } else     if k == 9 {
        GENERIC_TEMPLATE_9@
    } else     if k == 10 {
        GENERIC_TEMPLATE_10@
    } else {
        GENERIC_TEMPLATE_11@
    }
}

/// The generic template at place `k`.
fn generic_template(k: usize) -> (r: &'static str)
    requires
        k < TOTEM_COUNT,
    ensures
        r@ == spec_generic_template(k as int),
{
    match k {
        0 => GENERIC_TEMPLATE_0,
        1 => GENERIC_TEMPLATE_1,
        2 => GENERIC_TEMPLATE_2,
        3 => GENERIC_TEMPLATE_3,
        4 => GENERIC_TEMPLATE_4,
        5 => GENERIC_TEMPLATE_5,
        6 => GENERIC_TEMPLATE_6,
        7 => GENERIC_TEMPLATE_7,
        8 => GENERIC_TEMPLATE_8,
        9 => GENERIC_TEMPLATE_9,
        10 => GENERIC_TEMPLATE_10,
        _ => GENERIC_TEMPLATE_11,
    }
}

/// Whether a text ends with a NUL, as the game's strings do.
pub open spec fn spec_ends_nul(s: Seq<char>) -> bool {
    s.len() > 0 && s.last() == '\0'
}

/// Every template ends with a NUL, which neither placeholder holds.
proof fn lemma_templates_end_nul()
    ensures
        forall|k: int| 0 <= k < 12 ==> spec_ends_nul(#[trigger] spec_generic_template(k)),
        spec_ends_nul(TEMPLE_TEMPLATE@),
        !"{room}"@.contains('\0'),
        !"{pickup}"@.contains('\0'),
        "{room}"@.len() > 0,
        "{pickup}"@.len() > 0,
{
    reveal_strlit("I mean, maybe it'll be in &push;&main-color=#43CD80;{room}&pop;. I forgot, to be honest.\0");
    reveal_strlit("I'm not sure where the artifact exactly is, but like, you can try &push;&main-color=#43CD80;{room}&pop;.\0");
    reveal_strlit("Hey man, some of the Chozo are telling me that there might be a thing in &push;&main-color=#43CD80;{room}&pop;. Just sayin'.\0");
    reveal_strlit("Uhh umm... Where was it...? Uhhh, errr, it's definitely in &push;&main-color=#43CD80;{room}&pop;! I am 100% not totally making it up...\0");
    reveal_strlit("Some say it may be in &push;&main-color=#43CD80;{room}&pop;. Others say that you have no business here. Please leave me alone.\0");
    reveal_strlit("A buddy and I were drinking and thought 'Hey, wouldn't be crazy if we put it in &push;&main-color=#43CD80;{room}&pop;?' It took both of us just to put it there!\0");
    reveal_strlit("So, uhhh, I kind of got lazy and just dropped mine somewhere... Maybe it's in the &push;&main-color=#43CD80;{room}&pop;? Who knows.\0");
    reveal_strlit("I was super late and someone had to cover for me. She said she put it in &push;&main-color=#43CD80;{room}&pop;, so you'll just have to trust her.\0");
    reveal_strlit("Okay, so this jerk forgets to hide his so I had to hide two. This is literally saving the planet. Anyways, mine is in &push;&main-color=#43CD80;{room}&pop;.\0");
    reveal_strlit("To be honest, I don't really remember. I think it was... um... yeah we'll just go with that: It was &push;&main-color=#43CD80;{room}&pop;.\0");
    reveal_strlit("Hear the words of Oh Leer, last Chozo of the Artifact Temple. May they serve you... Alright, whatever. It's in &push;&main-color=#43CD80;{room}&pop;.\0");
    reveal_strlit("I kind of just played Frisbee with mine. It flew too far and I didn't see where it landed. Somewhere in &push;&main-color=#43CD80;{room}&pop;.\0");
    reveal_strlit("{pickup} awaits those who truly seek it.\0");
    reveal_strlit("{room}");
    reveal_strlit("{pickup}");
    assert forall|k: int| 0 <= k < 12 implies spec_ends_nul(#[trigger] spec_generic_template(k)) by {
        if k == 0 {} else if k == 1 {} else if k == 2 {} else if k == 3 {} else if k == 4 {}
        else if k == 5 {} else if k == 6 {} else if k == 7 {} else if k == 8 {} else if k == 9 {}
        else if k == 10 {} else {}
    }
}

/// The hint a template gives of an artifact in a room.
pub open spec fn spec_totem_text(template: Seq<char>, room: Seq<char>, t: PickupType) -> Seq<char> {
    spec_replace(spec_replace(template, "{room}"@, room), "{pickup}"@, spec_type_name(t))
}

/// The hint a template gives of an artifact in a room.
fn totem_text(template: &str, room: &str, t: PickupType) -> (r: String)
    ensures
        r@ == spec_totem_text(template@, room@, t),
{
    proof {
        lemma_templates_end_nul();
    }
    let with_room = replace_all(template, "{room}", room);
    replace_all(with_room.as_str(), "{pickup}", t.name())
}

/// The totems' texts before any artifact is placed: all empty.
pub open spec fn spec_blank_texts() -> Seq<Seq<char>> {
    Seq::new(12, |i: int| Seq::<char>::empty())
}

/// The texts, the number of generic templates handed out, and whether the
/// temple's own template is still unused, after one more artifact: the first
/// artifact of each kind gets a text, the temple's template where it lies in
/// the temple and that template is unused, else the next generic template in
/// `order`.
pub open spec fn spec_place(
    st: (Seq<Seq<char>>, int, bool),
    loc: (Seq<char>, PickupType),
    order: Seq<usize>,
) -> (Seq<Seq<char>>, int, bool) {
    let id = (spec_totem_of(loc.1)->0) as int;
    if st.0[id].len() != 0 {
        st
    } else if loc.0 == TEMPLE_ROOM@ && st.2 {
        (st.0.update(id, spec_totem_text(TEMPLE_TEMPLATE@, loc.0, loc.1)), st.1, false)
    } else {
        (
            st.0.update(id, spec_totem_text(spec_generic_template(order[st.1] as int), loc.0, loc.1)),
            st.1 + 1,
            st.2,
        )
    }
}

/// The state after the first `n` artifacts of `locs`.
pub open spec fn spec_placed(locs: Seq<(Seq<char>, PickupType)>, order: Seq<usize>, n: nat) -> (
    Seq<Seq<char>>,
    int,
    bool,
)
    decreases n,
{
    if n == 0 {
        (spec_blank_texts(), 0, true)
    } else {
        spec_place(spec_placed(locs, order, (n - 1) as nat), locs[n - 1], order)
    }
}

/// The texts with every one still empty replaced by the text for an absent
/// artifact.
pub open spec fn spec_with_absent(texts: Seq<Seq<char>>) -> Seq<Seq<char>> {
    texts.map_values(|t: Seq<char>| if t.len() == 0 { ABSENT_TEXT@ } else { t })
}

/// The texts with each hint, in order, put on the totem it names, a NUL
/// added.
pub open spec fn spec_with_hints(texts: Seq<Seq<char>>, hints: Seq<(String, String)>) -> Seq<Seq<char>>
    decreases hints.len(),
{
    if hints.len() == 0 {
        texts
    } else {
        let h = hints.last();
        spec_with_hints(texts, hints.drop_last()).update(
            (spec_hint_totem(spec_hint_key(h.0@))->0) as int,
            h.1@ + "\0"@,
        )
    }
}

/// The totems' texts for the artifacts in `levels`, generic templates taken
/// in `order`, and `hints` put over them.
pub open spec fn spec_totem_texts(
    levels: Seq<(String, LevelConfig)>,
    order: Seq<usize>,
    hints: Option<Vec<(String, String)>>,
) -> Seq<Seq<char>> {
    let locs = spec_levels_artifacts(levels);
    let texts = spec_with_absent(spec_placed(locs, order, locs.len()).0);
    match hints {
        Some(h) => spec_with_hints(texts, h@),
        None => texts,
    }
}

/// The number of texts that are not empty.
pub open spec fn spec_filled(texts: Seq<Seq<char>>) -> nat
    decreases texts.len(),
{
    if texts.len() == 0 {
        0
    } else {
        spec_filled(texts.drop_last()) + if texts.last().len() > 0 {
            1nat
        } else {
            0nat
        }
    }
}

proof fn lemma_filled_bound(texts: Seq<Seq<char>>)
    ensures
        spec_filled(texts) <= texts.len(),
    decreases texts.len(),
{
    if texts.len() > 0 {
        lemma_filled_bound(texts.drop_last());
    }
}

proof fn lemma_filled_blank(texts: Seq<Seq<char>>)
    requires
        forall|i: int| 0 <= i < texts.len() ==> (#[trigger] texts[i]).len() == 0,
    ensures
        spec_filled(texts) == 0,
    decreases texts.len(),
{
    if texts.len() > 0 {
        lemma_filled_blank(texts.drop_last());
    }
}

proof fn lemma_filled_update(texts: Seq<Seq<char>>, i: int, v: Seq<char>)
    requires
        0 <= i < texts.len(),
        texts[i].len() == 0,
        v.len() > 0,
    ensures
        spec_filled(texts.update(i, v)) == spec_filled(texts) + 1,
    decreases texts.len(),
{
    let u = texts.update(i, v);
    if i == texts.len() - 1 {
        assert(u.drop_last() =~= texts.drop_last());
    } else {
        assert(u.drop_last() =~= texts.drop_last().update(i, v));
        lemma_filled_update(texts.drop_last(), i, v);
    }
}

/// The views of an array of strings.
pub open spec fn spec_views(a: Seq<String>) -> Seq<Seq<char>> {
    a.map_values(|s: String| s@)
}

/// The totems' texts for the artifacts in `level_data`, the generic templates
/// taken in `order`, and `artifact_hints` put over them: each hint on the
/// totem its artifact's name names, trimmed and without regard to case.
pub fn totem_scan_strings(
    level_data: &Vec<(String, LevelConfig)>,
    order: &[usize],
    artifact_hints: &Option<Vec<(String, String)>>,
) -> (r: [String; 12])
    requires
        order@.len() == TOTEM_COUNT,
        forall|i: int| 0 <= i < order@.len() ==> order@[i] < TOTEM_COUNT,
        spec_types_known(level_data@),
        spec_hints_known(*artifact_hints),
    ensures
        spec_views(r@) == spec_totem_texts(level_data@, order@, *artifact_hints),
        forall|i: int| 0 <= i < 12 ==> spec_ends_nul(#[trigger] spec_views(r@)[i]),
{
    proof {
        lemma_templates_end_nul();
    }
    let locs = artifact_locations(level_data);
    let ghost ls = locs@.map_values(|p: (&str, PickupType)| (p.0@, p.1));
    let mut texts: [String; 12] = [
        String::new(), String::new(), String::new(), String::new(),
        String::new(), String::new(), String::new(), String::new(),
        String::new(), String::new(), String::new(), String::new(),
    ];
    let mut next: usize = 0;
    let mut temple_left = true;
    let mut j: usize = 0;
    proof {
        assert(spec_views(texts@) =~= spec_blank_texts());
        lemma_filled_blank(spec_blank_texts());
    }
    while j < locs.len()
        invariant
            0 <= j <= locs@.len(),
            ls == locs@.map_values(|p: (&str, PickupType)| (p.0@, p.1)),
            forall|i: int| 0 <= i < locs@.len() ==> (#[trigger] spec_totem_of(locs@[i].1)) is Some,
            order@.len() == TOTEM_COUNT,
            forall|i: int| 0 <= i < order@.len() ==> order@[i] < TOTEM_COUNT,
            (spec_views(texts@), next as int, temple_left) == spec_placed(ls, order@, j as nat),
            next + (if temple_left { 0int } else { 1int }) == spec_filled(spec_views(texts@)),
            forall|i: int| 0 <= i < 12 ==> (#[trigger] spec_views(texts@)[i]).len() == 0
                || spec_ends_nul(spec_views(texts@)[i]),
            forall|k: int| 0 <= k < 12 ==> spec_ends_nul(#[trigger] spec_generic_template(k)),
            spec_ends_nul(TEMPLE_TEMPLATE@),
            !"{room}"@.contains('\0'),
            !"{pickup}"@.contains('\0'),
        decreases locs@.len() - j,
    {
        let (room, t) = locs[j];
        let id = match totem_of(t) {
            Some(id) => id,
            None => {
                proof {
                    assert(spec_totem_of(locs@[j as int].1) is Some);
                }
                0
            },
        };
        let ghost before = spec_views(texts@);
        proof {
            assert(ls[j as int] == (room@, t));
        }
        if texts[id].as_str().is_empty() {
            let ghost use_temple = room@ == TEMPLE_ROOM@ && temple_left;
            proof {
                lemma_filled_bound(before.update(id as int, seq!['\0']));
                lemma_filled_update(before, id as int, seq!['\0']);
            }
            let text = if str_eq(room, TEMPLE_ROOM) && temple_left {
                temple_left = false;
                totem_text(TEMPLE_TEMPLATE, room, t)
            } else {
                let k = order[next];
                next = next + 1;
                totem_text(generic_template(k), room, t)
            };
            proof {
                let template = if use_temple {
                    TEMPLE_TEMPLATE@
                } else {
                    spec_generic_template(order@[next - 1] as int)
                };
                lemma_replace_keeps_last(template, "{room}"@, room@, '\0');
                lemma_replace_keeps_last(
                    spec_replace(template, "{room}"@, room@),
                    "{pickup}"@,
                    spec_type_name(t),
                    '\0',
                );
                lemma_filled_update(before, id as int, text@);
            }
            texts[id] = text;
            proof {
                assert(spec_views(texts@) =~= before.update(id as int, text@));
            }
        }
        j = j + 1;
    }
    proof {
        assert(ls.len() == locs@.len());
    }
    let mut i: usize = 0;
    let ghost placed = spec_views(texts@);
    proof {
        reveal_strlit("Artifact not present. This layout may not be completable.\0");
    }
    while i < TOTEM_COUNT
        invariant
            0 <= i <= 12,
            placed.len() == 12,
            spec_views(texts@).len() == 12,
            forall|k: int| 0 <= k < i ==> #[trigger] spec_views(texts@)[k] == spec_with_absent(placed)[k],
            forall|k: int| i <= k < 12 ==> #[trigger] spec_views(texts@)[k] == placed[k],
            forall|k: int| 0 <= k < 12 ==> (#[trigger] placed[k]).len() == 0 || spec_ends_nul(placed[k]),
            forall|k: int| 0 <= k < i ==> spec_ends_nul(#[trigger] spec_views(texts@)[k]),
            spec_ends_nul(ABSENT_TEXT@),
        decreases 12 - i,
    {
        let ghost before = spec_views(texts@);
        let empty = texts[i].as_str().is_empty();
        proof {
            assert(before[i as int] == texts@[i as int]@);
            assert(empty == (placed[i as int].len() == 0));
        }
        if empty {
            texts[i] = ABSENT_TEXT.to_owned();
            proof {
                assert(spec_views(texts@) =~= before.update(i as int, ABSENT_TEXT@));
            }
        }
        proof {
            assert(spec_views(texts@)[i as int] == spec_with_absent(placed)[i as int]);
        }
        i = i + 1;
    }
    proof {
        assert(spec_views(texts@) =~= spec_with_absent(placed));
    }
    match artifact_hints {
        Some(hints) => {
            let ghost absent = spec_views(texts@);
            let mut h: usize = 0;
            while h < hints.len()
                invariant
                    0 <= h <= hints@.len(),
                    spec_hints_known(*artifact_hints),
                    *artifact_hints == Some(*hints),
                    spec_views(texts@) == spec_with_hints(absent, hints@.take(h as int)),
                    spec_views(texts@).len() == 12,
                    forall|k: int| 0 <= k < 12 ==> spec_ends_nul(#[trigger] spec_views(texts@)[k]),
                decreases hints@.len() - h,
            {
                let id = match hint_totem(hints[h].0.as_str()) {
                    Some(id) => id,
                    None => {
                        proof {
                            assert(spec_hint_totem(spec_hint_key(hints@[h as int].0@)) is Some);
                        }
                        0
                    },
                };
                let ghost before = spec_views(texts@);
                let mut text = String::from_str(hints[h].1.as_str());
                text.append("\0");
                texts[id] = text;
                proof {
                    reveal_strlit("\0");
                    assert(hints@.take(h + 1).drop_last() =~= hints@.take(h as int));
                    assert(hints@.take(h + 1).last() == hints@[h as int]);
                    assert(spec_views(texts@) =~= before.update(id as int, text@));
                }
                h = h + 1;
            }
            proof {
                assert(hints@.take(hints@.len() as int) =~= hints@);
            }
        },
        None => {},
    }
    texts
}

/// The totems in their places, as the generic templates are first listed.
pub open spec fn spec_totem_places() -> Seq<usize> {
    Seq::new(12, |i: int| i as usize)
}

/// Whether `order` holds each generic template's place once.
pub open spec fn spec_shuffled(order: Seq<usize>) -> bool {
    order.to_multiset() == spec_totem_places().to_multiset()
}

/// Whether every pickup of every room names a pickup kind.
fn types_known(level_data: &Vec<(String, LevelConfig)>) -> (r: bool)
    ensures
        r == spec_types_known(level_data@),
{
    let mut a: usize = 0;
    while a < level_data.len()
        invariant
            0 <= a <= level_data@.len(),
            forall|x: int, b: int, c: int|
                0 <= x < a && 0 <= b < level_data@[x].1.rooms@.len() && 0 <= c < spec_room_pickups(
                    level_data@[x].1.rooms@[b].1,
                ).len() ==> spec_type_known(#[trigger] spec_pickup_at(level_data@, x, b, c).pickup_type@),
        decreases level_data@.len() - a,
    {
        let rooms = &level_data[a].1.rooms;
        let mut b: usize = 0;
        while b < rooms.len()
            invariant
                0 <= a < level_data@.len(),
                0 <= b <= rooms@.len(),
                rooms@ == level_data@[a as int].1.rooms@,
                forall|x: int, y: int, c: int|
                    0 <= x < a && 0 <= y < level_data@[x].1.rooms@.len() && 0 <= c < spec_room_pickups(
                        level_data@[x].1.rooms@[y].1,
                    ).len() ==> spec_type_known(#[trigger] spec_pickup_at(level_data@, x, y, c).pickup_type@),
                forall|y: int, c: int|
                    0 <= y < b && 0 <= c < spec_room_pickups(rooms@[y].1).len() ==> spec_type_known(
                        #[trigger] spec_pickup_at(level_data@, a as int, y, c).pickup_type@,
                    ),
            decreases rooms@.len() - b,
        {
            match &rooms[b].1.pickups {
                Some(list) => {
                    let mut c: usize = 0;
                    while c < list.len()
                        invariant
                            0 <= a < level_data@.len(),
                            0 <= b < rooms@.len(),
                            rooms@ == level_data@[a as int].1.rooms@,
                            list@ == spec_room_pickups(rooms@[b as int].1),
                            0 <= c <= list@.len(),
                            forall|x: int, y: int, z: int|
                                0 <= x < a && 0 <= y < level_data@[x].1.rooms@.len() && 0 <= z
                                    < spec_room_pickups(level_data@[x].1.rooms@[y].1).len()
                                    ==> spec_type_known(
                                    #[trigger] spec_pickup_at(level_data@, x, y, z).pickup_type@,
                                ),
                            forall|y: int, z: int|
                                0 <= y < b && 0 <= z < spec_room_pickups(rooms@[y].1).len()
                                    ==> spec_type_known(
                                    #[trigger] spec_pickup_at(level_data@, a as int, y, z).pickup_type@,
                                ),
                            forall|z: int|
                                0 <= z < c ==> spec_type_known(
                                    #[trigger] spec_pickup_at(level_data@, a as int, b as int, z).pickup_type@,
                                ),
                        decreases list@.len() - c,
                    {
                        proof {
                            assert(spec_pickup_at(level_data@, a as int, b as int, c as int) == list@[c as int]);
                        }
                        if PickupType::find(list[c].pickup_type.as_str()).is_none() {
                            proof {
                                let s = list@[c as int].pickup_type@;
                                assert(!spec_type_known(s));
                                assert(!spec_type_known(
                                    spec_pickup_at(level_data@, a as int, b as int, c as int).pickup_type@,
                                ));
                            }
                            return false;
                        }
                        c = c + 1;
                    }
                },
                None => {},
            }
            b = b + 1;
        }
        a = a + 1;
    }
    true
}

/// Whether every hint names an artifact.
fn hints_known(artifact_hints: &Option<Vec<(String, String)>>) -> (r: bool)
    ensures
        r == spec_hints_known(*artifact_hints),
{
    match artifact_hints {
        Some(hints) => {
            let mut h: usize = 0;
            while h < hints.len()
                invariant
                    0 <= h <= hints@.len(),
                    *artifact_hints == Some(*hints),
                    forall|i: int| 0 <= i < h ==> (#[trigger] spec_hint_totem(spec_hint_key(hints@[i].0@))) is Some,
                decreases hints@.len() - h,
            {
                if hint_totem(hints[h].0.as_str()).is_none() {
                    proof {
                        assert(spec_hint_totem(spec_hint_key(hints@[h as int].0@)) is None);
                    }
                    return false;
                }
                h = h + 1;
            }
            true
        },
        None => true,
    }
}

/// The totems' texts for the artifacts in `level_data`, the generic
/// templates taken in an order drawn from `rng`, and `artifact_hints` put
/// over them. Every pickup must name a pickup kind, and every hint an
/// artifact.
pub fn build_artifact_temple_totem_scan_strings(
    level_data: &Vec<(String, LevelConfig)>,
    rng: &mut StdRng,
    artifact_hints: Option<Vec<(String, String)>>,
) -> (r: [String; 12])
    requires
        spec_types_known(level_data@),
        spec_hints_known(artifact_hints),
    ensures
        exists|order: Seq<usize>|
            #[trigger] spec_shuffled(order) && spec_views(r@) == spec_totem_texts(
                level_data@,
                order,
                artifact_hints,
            ),
        forall|i: int| 0 <= i < 12 ==> spec_ends_nul(#[trigger] spec_views(r@)[i]),
{
    let mut order: Vec<usize> = Vec::new();
    let mut k: usize = 0;
    while k < TOTEM_COUNT
        invariant
            0 <= k <= 12,
            order@ == spec_totem_places().take(k as int),
        decreases 12 - k,
    {
        order.push(k);
        proof {
            assert(spec_totem_places().take(k + 1) =~= spec_totem_places().take(k as int).push(k));
        }
        k = k + 1;
    }
    proof {
        assert(order@ =~= spec_totem_places());
    }
    shuffle(&mut order, rng);
    proof {
        broadcast use vstd::seq_lib::group_to_multiset_ensures;
        assert(spec_shuffled(order@));
        assert(order@.len() == 12) by {
            assert(order@.to_multiset().len() == spec_totem_places().to_multiset().len());
        }
        assert forall|i: int| 0 <= i < order@.len() implies order@[i] < TOTEM_COUNT by {
            assert(order@.contains(order@[i]));
            assert(spec_totem_places().to_multiset().count(order@[i]) > 0);
            assert(spec_totem_places().contains(order@[i]));
        }
    }
    totem_scan_strings(level_data, order.as_slice(), &artifact_hints)
}

/// The texts `build_artifact_temple_totem_scan_strings` gives, where every
/// pickup names a pickup kind and every hint an artifact; none otherwise.
pub fn try_build_artifact_temple_totem_scan_strings(
    level_data: &Vec<(String, LevelConfig)>,
    rng: &mut StdRng,
    artifact_hints: Option<Vec<(String, String)>>,
) -> (r: Option<[String; 12]>)
    ensures
        r is Some <==> spec_types_known(level_data@) && spec_hints_known(artifact_hints),
        r matches Some(texts) ==> exists|order: Seq<usize>|
            #[trigger] spec_shuffled(order) && spec_views(texts@) == spec_totem_texts(
                level_data@,
                order,
                artifact_hints,
            ),
        r matches Some(texts) ==> forall|i: int| 0 <= i < 12 ==> spec_ends_nul(#[trigger] spec_views(texts@)[i]),
{
    if types_known(level_data) && hints_known(&artifact_hints) {
        Some(build_artifact_temple_totem_scan_strings(level_data, rng, artifact_hints))
    } else {
        None
    }
}


/// An artifact's totem is its place among the artifacts in the order of
/// `PickupModel::iter`, which lists them from index 22 on (Lifegiver, Wild,
/// World, Sun, Elder, Spirit, Truth, Chozo, Warrior, Newborn, Nature,
/// Strength): totem `k` tells of the artifact whose model stands at
/// `22 + k`. A pickup that is no artifact has no totem, and its model is none
/// of those twelve (indices 22 to 33).
pub proof fn lemma_totem_is_artifact_place(t: PickupType)
    ensures
        match spec_totem_of(t) {
            Some(k) => k < 12 && spec_pickup_models()[22 + k] == spec_model_from_type(t),
            None => forall|j: int| 22 <= j < 34 ==> #[trigger] spec_pickup_models()[j] != spec_model_from_type(t),
        },
{
    match spec_totem_of(t) {
        Some(k) => {},
        None => {
            assert forall|j: int| 22 <= j < 34 implies #[trigger] spec_pickup_models()[j] != spec_model_from_type(t) by {
                if j == 22 {} else if j == 23 {} else if j == 24 {} else if j == 25 {} else if j == 26 {} else if j == 27 {}
                else if j == 28 {} else if j == 29 {} else if j == 30 {} else if j == 31 {} else if j == 32 {} else {}
            }
        },
    }
}

/// An artifact's totem is the one its hints are given under: the hint key
/// of its short name ("World" for the Artifact Of World) names that totem.
pub proof fn lemma_totem_matches_hint(t: PickupType)
    requires
        spec_totem_of(t) is Some,
    ensures
        spec_hint_totem(spec_hint_key(spec_type_name(t).skip(12))) == spec_totem_of(t),
{
    reveal_strlit("lifegiver");
    reveal_strlit("wild");
    reveal_strlit("world");
    reveal_strlit("sun");
    reveal_strlit("elder");
    reveal_strlit("spirit");
    reveal_strlit("truth");
    reveal_strlit("chozo");
    reveal_strlit("warrior");
    reveal_strlit("newborn");
    reveal_strlit("nature");
    reveal_strlit("strength");
    match t {
        PickupType::ArtifactOfLifegiver => {
            reveal_strlit("Artifact Of Lifegiver");
            reveal_strlit("Lifegiver");
            let short = spec_type_name(t).skip(12);
            assert(short =~= "Lifegiver"@);
            lemma_name_key(short);
            assert(spec_ascii_lowercase(short) =~= "lifegiver"@);
        },
        PickupType::ArtifactOfWild => {
            reveal_strlit("Artifact Of Wild");
            reveal_strlit("Wild");
            let short = spec_type_name(t).skip(12);
            assert(short =~= "Wild"@);
            lemma_name_key(short);
            assert(spec_ascii_lowercase(short) =~= "wild"@);
        },
        PickupType::ArtifactOfWorld => {
            reveal_strlit("Artifact Of World");
            reveal_strlit("World");
            let short = spec_type_name(t).skip(12);
            assert(short =~= "World"@);
            lemma_name_key(short);
            assert(spec_ascii_lowercase(short) =~= "world"@);
        },
        PickupType::ArtifactOfSun => {
            reveal_strlit("Artifact Of Sun");
            reveal_strlit("Sun");
            let short = spec_type_name(t).skip(12);
            assert(short =~= "Sun"@);
            lemma_name_key(short);
            assert(spec_ascii_lowercase(short) =~= "sun"@);
        },
        PickupType::ArtifactOfElder => {
            reveal_strlit("Artifact Of Elder");
            reveal_strlit("Elder");
            let short = spec_type_name(t).skip(12);
            assert(short =~= "Elder"@);
            lemma_name_key(short);
            assert(spec_ascii_lowercase(short) =~= "elder"@);
        },
        PickupType::ArtifactOfSpirit => {
            reveal_strlit("Artifact Of Spirit");
            reveal_strlit("Spirit");
            let short = spec_type_name(t).skip(12);
            assert(short =~= "Spirit"@);
            lemma_name_key(short);
            assert(spec_ascii_lowercase(short) =~= "spirit"@);
        },
        PickupType::ArtifactOfTruth => {
            reveal_strlit("Artifact Of Truth");
            reveal_strlit("Truth");
            let short = spec_type_name(t).skip(12);
            assert(short =~= "Truth"@);
            lemma_name_key(short);
            assert(spec_ascii_lowercase(short) =~= "truth"@);
        },
        PickupType::ArtifactOfChozo => {
            reveal_strlit("Artifact Of Chozo");
            reveal_strlit("Chozo");
            let short = spec_type_name(t).skip(12);
            assert(short =~= "Chozo"@);
            lemma_name_key(short);
            assert(spec_ascii_lowercase(short) =~= "chozo"@);
        },
        PickupType::ArtifactOfWarrior => {
            reveal_strlit("Artifact Of Warrior");
            reveal_strlit("Warrior");
            let short = spec_type_name(t).skip(12);
            assert(short =~= "Warrior"@);
            lemma_name_key(short);
            assert(spec_ascii_lowercase(short) =~= "warrior"@);
        },
        PickupType::ArtifactOfNewborn => {
            reveal_strlit("Artifact Of Newborn");
            reveal_strlit("Newborn");
            let short = spec_type_name(t).skip(12);
            assert(short =~= "Newborn"@);
            lemma_name_key(short);
            assert(spec_ascii_lowercase(short) =~= "newborn"@);
        },
        PickupType::ArtifactOfNature => {
            reveal_strlit("Artifact Of Nature");
            reveal_strlit("Nature");
            let short = spec_type_name(t).skip(12);
            assert(short =~= "Nature"@);
            lemma_name_key(short);
            assert(spec_ascii_lowercase(short) =~= "nature"@);
        },
        PickupType::ArtifactOfStrength => {
            reveal_strlit("Artifact Of Strength");
            reveal_strlit("Strength");
            let short = spec_type_name(t).skip(12);
            assert(short =~= "Strength"@);
            lemma_name_key(short);
            assert(spec_ascii_lowercase(short) =~= "strength"@);
        },
        _ => {},
    }
}

} // verus!
