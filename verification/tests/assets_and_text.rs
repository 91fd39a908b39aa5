use randomprime::banner::{write_encoded_str, BannerFieldError};
use randomprime::cow::{ImmCow, LCow};
use randomprime::extern_assets::{
    asset_file_for, contains_bytes, decimal_bytes, extension_fourcc, model_dependencies, ExternAssetDependency,
    ExternAssetEntry,
};
use randomprime::primitive_types::FourCC;
use randomprime::resource_info::{lookup_resource_info, ResourceInfo};
use randomprime::text::{
    chars_eq, lower_trimmed, squeeze, str_ends_with, str_eq, str_starts_with, trimmed_lower,
};

fn dep(kind: &str, id: u32) -> ExternAssetDependency {
    ExternAssetDependency { fourcc: kind.to_string(), id }
}

#[test]
fn model_dependencies_follow_every_asset_found() {
    let assets = vec![
        ExternAssetEntry { old_id: 10, new_id: 2, dependencies: vec![dep("TXTR", 3), dep("TXTR", 4)] },
        ExternAssetEntry { old_id: 11, new_id: 4, dependencies: vec![dep("PART", 5), dep("TXTR", 3)] },
        ExternAssetEntry { old_id: 12, new_id: 9, dependencies: vec![dep("TXTR", 6)] },
    ];
    let deps = model_dependencies(1, 2, &assets).unwrap();
    assert_eq!(
        deps,
        vec![
            (1, FourCC::from_bytes(b"ANCS")),
            (2, FourCC::from_bytes(b"CMDL")),
            (3, FourCC::from_bytes(b"TXTR")),
            (4, FourCC::from_bytes(b"TXTR")),
            (5, FourCC::from_bytes(b"PART")),
        ]
    );
}

#[test]
fn model_dependencies_found_in_a_later_round() {
    // The asset that depends on 7 comes before the one that brings 7 in.
    let assets = vec![
        ExternAssetEntry { old_id: 1, new_id: 7, dependencies: vec![dep("SCAN", 8)] },
        ExternAssetEntry { old_id: 2, new_id: 2, dependencies: vec![dep("EVNT", 7)] },
    ];
    let deps = model_dependencies(1, 2, &assets).unwrap();
    assert_eq!(deps[2], (7, FourCC::from_bytes(b"EVNT")));
    assert_eq!(deps[3], (8, FourCC::from_bytes(b"SCAN")));
    assert_eq!(deps.len(), 4);
}

#[test]
fn model_dependency_with_a_short_kind_is_refused() {
    let assets = vec![ExternAssetEntry { old_id: 1, new_id: 1, dependencies: vec![dep("AB", 7)] }];
    assert_eq!(model_dependencies(1, 2, &assets), None);
    let unrelated = vec![ExternAssetEntry { old_id: 1, new_id: 5, dependencies: vec![dep("AB", 7)] }];
    assert_eq!(model_dependencies(1, 2, &unrelated).unwrap().len(), 2);
}

static PAK_A: &[&[u8]] = &[b"Metroid2.pak"];
static TABLE: [ResourceInfo; 3] = [
    ResourceInfo { long_name: "a", short_name: None, res_id: 5, fourcc: FourCC(*b"TXTR"), paks: PAK_A },
    ResourceInfo { long_name: "b", short_name: Some("bb"), res_id: 9, fourcc: FourCC(*b"CMDL"), paks: PAK_A },
    ResourceInfo { long_name: "c", short_name: None, res_id: 12, fourcc: FourCC(*b"ANCS"), paks: PAK_A },
];

#[test]
fn resource_info_lookup_by_id() {
    let found = lookup_resource_info(&TABLE, 9).unwrap();
    assert_eq!(found.long_name, "b");
    assert_eq!(found.id_kind(), (9, FourCC(*b"CMDL")));
    assert_eq!(found.pak_id(), (&b"Metroid2.pak"[..], 9));
    assert!(lookup_resource_info(&TABLE, 10).is_none());
    assert!(lookup_resource_info(&TABLE, 12).is_some());
}

#[test]
fn string_helpers() {
    assert!(str_eq("abc", "abc"));
    assert!(!str_eq("abc", "abd"));
    assert_eq!(lower_trimmed("  Hello World "), "hello world");
    assert_eq!(trimmed_lower("\tMiXed\n"), "mixed");
    assert_eq!(squeeze("Chozo Ruins\0 West"), "ChozoRuinsWest".chars().collect::<Vec<char>>());
    assert!(chars_eq(&vec!['a', 'b'], &vec!['a', 'b']));
    assert!(!chars_eq(&vec!['a'], &vec!['a', 'b']));
    assert!(str_ends_with("prime.gcz", ".gcz"));
    assert!(!str_ends_with("gcz", ".gcz"));
    assert!(str_starts_with("tallon overworld", "tallon"));
    assert!(!str_starts_with("tal", "tallon"));
}

#[test]
fn cow_values() {
    let owned: LCow<'_, Vec<u8>> = LCow::Owned(vec![1, 2]);
    assert_eq!(owned.get(), &vec![1, 2]);
    let source = vec![3u8];
    let borrowed = LCow::Borrowed(&source);
    assert_eq!(borrowed.into_owned(), vec![3]);
    let b = ImmCow::new_borrowed(&source);
    assert!(b.try_get_borrowed().is_some());
    let o: ImmCow<'_, u32> = ImmCow::new_owned(4);
    assert!(o.try_get_borrowed().is_none());
    assert_eq!(*o.get(), 4);
}

#[test]
fn banner_texts_are_stored_in_windows_1252() {
    let mut field = [0xAAu8; 8];
    assert!(write_encoded_str("game_name", &Some("Caf\u{e9} \u{20ac}".to_string()), &mut field).is_ok());
    assert_eq!(field, [b'C', b'a', b'f', 0xE9, b' ', 0x80, 0, 0]);
    let mut field = [0xAAu8; 4];
    assert!(write_encoded_str("developer", &None, &mut field).is_ok());
    assert_eq!(field, [0xAA; 4]);
    match write_encoded_str("developer", &Some("abc".to_string()), &mut field) {
        Err(BannerFieldError::InvalidLength { field: f, expected, got }) => {
            assert_eq!(f, "developer");
            assert_eq!(expected, 3);
            assert_eq!(got, 3);
        },
        _ => panic!("expected the text to be too long"),
    }
    assert_eq!(field, [0xAA; 4]);
    match write_encoded_str("description", &Some("\u{3042}".to_string()), &mut field) {
        Err(BannerFieldError::Unencodable { field: f }) => assert_eq!(f, "description"),
        _ => panic!("expected the text to be refused"),
    }
    assert!(write_encoded_str("description", &Some("ab".to_string()), &mut field).is_ok());
    assert_eq!(field, [b'a', b'b', 0, 0]);
}

#[test]
fn asset_files_are_found_by_id_and_kind_by_extension() {
    assert_eq!(decimal_bytes(0), b"0".to_vec());
    assert_eq!(decimal_bytes(4294967295), b"4294967295".to_vec());
    assert!(contains_bytes(b"assets/123456.CMDL", b"3456"));
    assert!(!contains_bytes(b"assets/12.CMDL", b"123"));
    let names: Vec<Vec<u8>> = vec![b"dir/1111.ANCS".to_vec(), b"dir/22334.CMDL".to_vec(), b"dir/334.TXTR".to_vec()];
    assert_eq!(asset_file_for(334, &names), Some(1));
    assert_eq!(asset_file_for(1111, &names), Some(0));
    assert_eq!(asset_file_for(999, &names), None);
    assert_eq!(extension_fourcc(b"dir.v2/22334.CMDL"), Some(FourCC::from_bytes(b"CMDL")));
    assert_eq!(extension_fourcc(b"dir/22334.TXTRX"), Some(FourCC::from_bytes(b"TXTR")));
    assert_eq!(extension_fourcc(b"dir/22334.CM"), None);
    assert_eq!(extension_fourcc(b"dir/22334"), None);
}
