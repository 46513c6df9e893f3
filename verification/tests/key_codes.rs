use nicotine::config::Platform;
use nicotine::key_codes::{code_to_label, iced_key_to_code, oem_vk_range, Key, Named};

fn f_keys_16_to_24() -> Vec<(Named, &'static str)> {
    vec![
        (Named::F16, "F16"),
        (Named::F17, "F17"),
        (Named::F18, "F18"),
        (Named::F19, "F19"),
        (Named::F20, "F20"),
        (Named::F21, "F21"),
        (Named::F22, "F22"),
        (Named::F23, "F23"),
        (Named::F24, "F24"),
    ]
}

#[test]
fn iced_key_to_code_maps_f16_through_f24() {
    for platform in [Platform::Unix, Platform::Windows] {
        for (key, name) in f_keys_16_to_24() {
            assert!(
                iced_key_to_code(platform, &Key::Named(key)).is_some(),
                "{name} has no native key code mapping"
            );
        }
    }
}

#[test]
fn code_to_label_round_trips_f16_through_f24() {
    for platform in [Platform::Unix, Platform::Windows] {
        for (key, name) in f_keys_16_to_24() {
            let code = iced_key_to_code(platform, &Key::Named(key))
                .unwrap_or_else(|| panic!("{name} unmapped, can't round-trip"));
            assert_eq!(
                code_to_label(platform, code, None),
                name,
                "code {code} for {name} renders as raw fallback instead of the F-key name"
            );
        }
    }
}

#[test]
fn character_keys_map_to_codes() {
    // A printable key arrives as Key::Character; ensure letters/digits map.
    for platform in [Platform::Unix, Platform::Windows] {
        assert!(iced_key_to_code(platform, &Key::Character("a".into())).is_some());
        assert!(iced_key_to_code(platform, &Key::Character("1".into())).is_some());
    }
}

#[test]
fn oem_vk_range_covers_all_documented_oem_vks() {
    let expected: Vec<u16> = (0xBAu16..=0xC0)
        .chain(0xDBu16..=0xDF)
        .chain([0xE2u16])
        .collect();
    assert_eq!(
        oem_vk_range(),
        expected,
        "the range drifted from the documented OEM range"
    );
}
