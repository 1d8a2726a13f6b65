use overlay_draw::overlay::{player_resources_info, vkey_to_egui_key, PlayerRawStats, UiKey};

#[test]
fn vkey_table_maps_known_keys() {
    assert_eq!(vkey_to_egui_key(0x28), Some(UiKey::ArrowDown));
    assert_eq!(vkey_to_egui_key(0x1b), Some(UiKey::Escape));
    assert_eq!(vkey_to_egui_key(0x0d), Some(UiKey::Enter));
    assert_eq!(vkey_to_egui_key(0x41), Some(UiKey::A));
    assert_eq!(vkey_to_egui_key(0x5a), Some(UiKey::Z));
    assert_eq!(vkey_to_egui_key(0x70), Some(UiKey::F1));
    assert_eq!(vkey_to_egui_key(0x83), Some(UiKey::F20));
    // Digits map from both the main row and the numeric pad.
    assert_eq!(vkey_to_egui_key(0x30), Some(UiKey::Num0));
    assert_eq!(vkey_to_egui_key(0x60), Some(UiKey::Num0));
    assert_eq!(vkey_to_egui_key(0x39), Some(UiKey::Num9));
    assert_eq!(vkey_to_egui_key(0x69), Some(UiKey::Num9));
}

#[test]
fn vkey_table_drops_unknown_keys() {
    assert_eq!(vkey_to_egui_key(0x84), None);
    assert_eq!(vkey_to_egui_key(0x00), None);
    assert_eq!(vkey_to_egui_key(-1), None);
    assert_eq!(vkey_to_egui_key(0x2f), None);
}

#[test]
fn supply_is_halved_with_used_rounded_up() {
    let raw = PlayerRawStats {
        name: String::new(),
        color: [10, 20, 30],
        race: 1,
        minerals: 50,
        gas: 25,
        // (used, provided, max) per race, in the game's half-units.
        supplies_raw: [(5, 20, 10), (4, 8, 16), (0, 0, 0)],
        workers: [7, 0, 5],
    };
    let info = player_resources_info(&raw, String::from("One"));
    assert_eq!(info.name, "One");
    assert_eq!(info.color, [10, 20, 30]);
    assert_eq!(info.race, 1);
    assert_eq!(info.minerals, 50);
    assert_eq!(info.gas, 25);
    // Used 5 half-units shows as 3; available is min(20, 10) = 10, shown 5.
    assert_eq!(info.supplies[0], (3, 5));
    // Used 4 shows as 2; available is min(8, 16) = 8, shown 4.
    assert_eq!(info.supplies[1], (2, 4));
    assert_eq!(info.supplies[2], (0, 0));
    assert_eq!(info.workers, 12);
}

#[test]
fn out_of_range_race_is_clamped_and_counters_wrap() {
    let raw = PlayerRawStats {
        name: String::new(),
        color: [0, 0, 0],
        race: 5,
        minerals: 0,
        gas: 0,
        supplies_raw: [(u32::MAX, 1, 1), (0, 0, 0), (0, 0, 0)],
        workers: [u32::MAX, 1, 2],
    };
    let info = player_resources_info(&raw, String::from("Two"));
    assert_eq!(info.race, 0);
    // Used supply at the counter's top wraps to zero before halving, as the
    // game's own wrapping increment would.
    assert_eq!(info.supplies[0], (0, 0));
    // The worker total wraps like the game's 32-bit counters.
    assert_eq!(info.workers, 2);
}
