use rand::rngs::StdRng;
use rand::SeedableRng;
use randomprime::artifact_temple::{
    build_artifact_temple_totem_scan_strings, hint_totem, totem_of, totem_scan_strings,
    try_build_artifact_temple_totem_scan_strings, ABSENT_TEXT, GENERIC_TEMPLATE_0, GENERIC_TEMPLATE_1,
    GENERIC_TEMPLATE_10, GENERIC_TEMPLATE_11, GENERIC_TEMPLATE_2, GENERIC_TEMPLATE_3, GENERIC_TEMPLATE_4,
    GENERIC_TEMPLATE_5, GENERIC_TEMPLATE_6, GENERIC_TEMPLATE_7, GENERIC_TEMPLATE_8, GENERIC_TEMPLATE_9,
};
use randomprime::patch_config::{LevelConfig, PickupConfig, RoomConfig};
use randomprime::pickup_meta::PickupType;

fn pickup(kind: &str) -> PickupConfig {
    PickupConfig {
        pickup_type: kind.to_string(),
        curr_increase: None,
        max_increase: None,
        model: None,
        scan_text: None,
        hudmemo_text: None,
        respawn: None,
        modal_hudmemo: None,
    }
}

fn room(name: &str, kinds: &[&str]) -> (String, RoomConfig) {
    (name.to_string(), RoomConfig { pickups: Some(kinds.iter().map(|k| pickup(k)).collect()) })
}

fn level(name: &str, rooms: Vec<(String, RoomConfig)>) -> (String, LevelConfig) {
    (name.to_string(), LevelConfig { transports: Vec::new(), rooms })
}

fn templates() -> Vec<&'static str> {
    vec![
        GENERIC_TEMPLATE_0, GENERIC_TEMPLATE_1, GENERIC_TEMPLATE_2, GENERIC_TEMPLATE_3,
        GENERIC_TEMPLATE_4, GENERIC_TEMPLATE_5, GENERIC_TEMPLATE_6, GENERIC_TEMPLATE_7,
        GENERIC_TEMPLATE_8, GENERIC_TEMPLATE_9, GENERIC_TEMPLATE_10, GENERIC_TEMPLATE_11,
    ]
}

const IN_ORDER: [usize; 12] = [0, 1, 2, 3, 4, 5, 6, 7, 8, 9, 10, 11];

#[test]
fn totems_without_artifacts_say_they_are_absent() {
    let levels = vec![level("tallon", vec![room("Landing Site", &["Missile", "Energy Tank"])])];
    let texts = totem_scan_strings(&levels, &IN_ORDER, &None);
    for t in texts.iter() {
        assert_eq!(t, ABSENT_TEXT);
    }
}

#[test]
fn the_first_artifact_of_a_kind_gets_the_next_template() {
    let levels = vec![
        level("chozo", vec![room("Main Plaza", &["Artifact of Wild", "Missile"])]),
        level("magmoor", vec![room("Lava Lake", &["artifact of wild", "ARTIFACT OF SUN"])]),
    ];
    let order = [4, 3, 0, 1, 2, 5, 6, 7, 8, 9, 10, 11];
    let texts = totem_scan_strings(&levels, &order, &None);
    assert_eq!(texts[1], templates()[4].replace("{room}", "Main Plaza"));
    assert_eq!(texts[3], templates()[3].replace("{room}", "Lava Lake"));
    assert_eq!(
        texts[1],
        "Some say it may be in &push;&main-color=#43CD80;Main Plaza&pop;. Others say that you have no business here. Please leave me alone.\0"
    );
    for i in [0, 2, 4, 5, 6, 7, 8, 9, 10, 11] {
        assert_eq!(texts[i], ABSENT_TEXT);
    }
}

#[test]
fn an_artifact_in_the_temple_gets_the_temples_own_text_once() {
    let levels = vec![level(
        "tallon",
        vec![
            room("Artifact Temple", &["Artifact of Truth", "Artifact of Strength"]),
            room("Artifact Temple", &["Artifact of Chozo"]),
        ],
    )];
    let texts = totem_scan_strings(&levels, &IN_ORDER, &None);
    assert_eq!(texts[6], "Artifact Of Truth awaits those who truly seek it.\0");
    assert_eq!(texts[11], templates()[0].replace("{room}", "Artifact Temple"));
    assert_eq!(texts[7], templates()[1].replace("{room}", "Artifact Temple"));
}

#[test]
fn hints_are_put_over_the_texts() {
    let levels = vec![level("chozo", vec![room("Main Plaza", &["Artifact of Wild"])])];
    let hints = vec![
        ("  Wild ".to_string(), "Look in the plaza".to_string()),
        ("NEWBORN".to_string(), "Nowhere".to_string()),
    ];
    let texts = totem_scan_strings(&levels, &IN_ORDER, &Some(hints));
    assert_eq!(texts[1], "Look in the plaza\0");
    assert_eq!(texts[9], "Nowhere\0");
    assert_eq!(texts[0], ABSENT_TEXT);
}

#[test]
fn the_later_of_two_hints_for_a_totem_wins() {
    let hints = vec![("sun".to_string(), "first".to_string()), ("Sun".to_string(), "second".to_string())];
    let texts = totem_scan_strings(&Vec::new(), &IN_ORDER, &Some(hints));
    assert_eq!(texts[3], "second\0");
}

#[test]
fn a_shuffled_build_uses_each_template_at_most_once() {
    let rooms: Vec<(String, RoomConfig)> = [
        "Artifact of Lifegiver", "Artifact of Wild", "Artifact of World", "Artifact of Sun",
        "Artifact of Elder", "Artifact of Spirit", "Artifact of Truth", "Artifact of Chozo",
        "Artifact of Warrior", "Artifact of Newborn", "Artifact of Nature", "Artifact of Strength",
    ]
    .iter()
    .map(|k| room("Ruined Fountain", &[k]))
    .collect();
    let levels = vec![level("chozo", rooms)];
    let mut rng = StdRng::seed_from_u64(7);
    let texts = build_artifact_temple_totem_scan_strings(&levels, &mut rng, None);
    let mut used: Vec<String> = texts.to_vec();
    let mut expected: Vec<String> = templates().iter().map(|t| t.replace("{room}", "Ruined Fountain")).collect();
    used.sort();
    expected.sort();
    assert_eq!(used, expected);
}

#[test]
fn unknown_pickups_or_hints_build_nothing() {
    let mut rng = StdRng::seed_from_u64(1);
    let bad_pickup = vec![level("chozo", vec![room("Main Plaza", &["Artifact of Snacks"])])];
    assert!(try_build_artifact_temple_totem_scan_strings(&bad_pickup, &mut rng, None).is_none());
    let good = vec![level("chozo", vec![room("Main Plaza", &["Artifact of Wild"])])];
    let bad_hint = Some(vec![("snacks".to_string(), "here".to_string())]);
    assert!(try_build_artifact_temple_totem_scan_strings(&good, &mut rng, bad_hint).is_none());
    let texts = try_build_artifact_temple_totem_scan_strings(&good, &mut rng, None).unwrap();
    assert!(texts[1].contains("Main Plaza"));
    assert!(texts[1].ends_with('\0'));
}

#[test]
fn totems_follow_the_temples_order() {
    assert_eq!(totem_of(PickupType::ArtifactOfLifegiver), Some(0));
    assert_eq!(totem_of(PickupType::ArtifactOfSpirit), Some(5));
    assert_eq!(totem_of(PickupType::ArtifactOfStrength), Some(11));
    assert_eq!(totem_of(PickupType::Missile), None);
    assert_eq!(hint_totem(" Truth\t"), Some(6));
    assert_eq!(hint_totem("WARRIOR"), Some(8));
    assert_eq!(hint_totem("artifact of truth"), None);
}

#[test]
fn every_totem_text_ends_with_a_nul() {
    let levels = vec![level("chozo", vec![room("Artifact Temple", &["Artifact of Elder"]), room("", &["Artifact of Sun"])])];
    let hints = Some(vec![("world".to_string(), String::new())]);
    let mut rng = StdRng::seed_from_u64(3);
    let texts = build_artifact_temple_totem_scan_strings(&levels, &mut rng, hints);
    for t in texts.iter() {
        assert!(t.ends_with('\0'));
    }
    assert_eq!(texts[2], "\0");
    assert_eq!(texts[4], "Artifact Of Elder awaits those who truly seek it.\0");
}
