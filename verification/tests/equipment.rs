use loadout::equipment::{
    load_catalog, recompute_after, Catalog, EquipKind, EquipOutcome, EquipmentRecord,
};
use loadout::equipment_grid::{
    grid_rows, placeholder_path, slot_view, GearSlot, SlotImage, SlotItem,
};
use loadout::search_bar::{Command, Key, SearchBar, SearchBarProps, SearchItem};

fn item(id: usize, name: &str, slot: &str) -> EquipmentRecord {
    EquipmentRecord {
        id,
        name: name.to_string(),
        version: None,
        slot: slot.to_string(),
        image: format!("{name}.png"),
        category: None,
        speed: None,
        attack_range: None,
        is_two_handed: None,
    }
}

fn weapon(id: usize, name: &str) -> EquipmentRecord {
    let mut w = item(id, name, "Weapon");
    w.category = Some("Slash Sword".to_string());
    w.speed = Some(4);
    w.attack_range = Some(1);
    w.is_two_handed = Some(false);
    w
}

fn names(catalog: &Catalog) -> Vec<String> {
    match catalog {
        Catalog::Ready(records) => records.iter().map(|r| r.name.clone()).collect(),
        Catalog::Unavailable => panic!("catalog is unavailable"),
    }
}

#[test]
fn unreadable_asset_is_not_an_empty_catalog() {
    assert!(matches!(load_catalog(None), Catalog::Unavailable));
    match load_catalog(Some(vec![])) {
        Catalog::Ready(records) => assert!(records.is_empty()),
        Catalog::Unavailable => panic!("an empty asset is still a catalog"),
    }
}

#[test]
fn catalog_drops_unarmed_and_incomplete_weapons() {
    let mut no_speed = weapon(2, "Broken sword");
    no_speed.speed = None;
    let mut no_category = weapon(3, "Nameless blade");
    no_category.category = None;
    let mut no_range = weapon(4, "Short stick");
    no_range.attack_range = None;
    let mut no_hands = weapon(5, "Odd axe");
    no_hands.is_two_handed = None;
    let parsed = vec![
        weapon(0, "Rune scimitar"),
        weapon(1, "Unarmed"),
        no_speed,
        no_category,
        no_range,
        no_hands,
        item(6, "Rune platebody", "Body"),
        item(7, "Unarmed", "Body"),
        item(8, "Wooden club", "weapon"),
    ];
    let catalog = load_catalog(Some(parsed));
    assert_eq!(names(&catalog), vec!["Rune scimitar", "Rune platebody"]);
    match catalog {
        Catalog::Ready(records) => {
            assert_eq!(records.iter().map(|r| r.id).collect::<Vec<_>>(), vec![0, 6]);
            assert!(records.iter().all(|r| r.listable()));
        }
        Catalog::Unavailable => unreachable!(),
    }
}

#[test]
fn listable_reads_the_slot_tag_in_any_case() {
    assert!(item(0, "Rune platebody", "Body").listable());
    assert!(!item(0, "Rune scimitar", "Weapon").listable());
    assert!(!item(0, "Rune scimitar", "weapon").listable());
    assert!(!item(0, "Rune scimitar", "WEAPON").listable());
    assert!(item(0, "Rune scimitar", "weapons").listable());
    assert!(weapon(0, "Rune scimitar").listable());
    let mut lower = weapon(0, "Rune scimitar");
    lower.slot = "weapon".to_string();
    assert!(lower.listable());
    assert!(!weapon(0, "Unarmed").listable());
    assert!(weapon(0, "unarmed").listable());
}

#[test]
fn catalog_numbers_records_by_their_place_in_the_asset() {
    let parsed = vec![
        item(7, "Rune platebody", "Body"),
        item(7, "Unarmed", "Body"),
        item(7, "Rune platelegs", "Legs"),
        item(0, "Rune kiteshield", "Shield"),
    ];
    match load_catalog(Some(parsed)) {
        Catalog::Ready(records) => {
            assert_eq!(records.iter().map(|r| r.id).collect::<Vec<_>>(), vec![0, 2, 3]);
            assert_eq!(records[1].name, "Rune platelegs");
            let keys: Vec<String> = records.iter().map(|r| r.key()).collect();
            assert_eq!(
                keys,
                vec![
                    "0-Rune platebody-novariant",
                    "2-Rune platelegs-novariant",
                    "3-Rune kiteshield-novariant"
                ]
            );
        }
        Catalog::Unavailable => unreachable!(),
    }
}

#[test]
fn records_with_the_same_name_and_version_text_get_different_keys() {
    let mut a = item(0, "A-B", "Body");
    let mut b = item(0, "A", "Body");
    b.version = Some("B-novariant".to_string());
    let twin = item(0, "A-B", "Head");
    match load_catalog(Some(vec![a.clone(), b.clone(), twin])) {
        Catalog::Ready(records) => {
            assert_eq!(records[0].key(), "0-A-B-novariant");
            assert_eq!(records[1].key(), "1-A-B-novariant");
            assert_eq!(records[2].key(), "2-A-B-novariant");
        }
        Catalog::Unavailable => unreachable!(),
    }
    // the same record always gives the same key
    a.id = 12;
    b.id = 12;
    assert_eq!(a.key(), a.clone().key());
    assert_eq!(a.key(), "12-A-B-novariant");
    assert_eq!(b.key(), "12-A-B-novariant");
}

#[test]
fn equipment_key_joins_name_and_version() {
    let mut glory = item(0, "Amulet of glory", "Neck");
    assert_eq!(glory.key(), "0-Amulet of glory-novariant");
    glory.version = Some("Charged".to_string());
    assert_eq!(glory.key(), "0-Amulet of glory-Charged");
    glory.version = Some(String::new());
    assert_eq!(glory.key(), "0-Amulet of glory-");
    glory.id = 4031;
    assert_eq!(glory.key(), "4031-Amulet of glory-");
}

#[test]
fn equipment_filter_matches_name_or_version() {
    let mut glory = item(0, "Amulet of Glory", "Neck");
    glory.version = Some("Charged (6)".to_string());
    assert!(glory.is_match("glory"));
    assert!(glory.is_match("charged"));
    assert!(glory.is_match("(6)"));
    assert!(glory.is_match(""));
    assert!(!glory.is_match("Glory"));
    assert!(!glory.is_match("uncharged"));
    let plain = item(1, "Amulet of power", "Neck");
    assert!(plain.is_match("power"));
    assert!(!plain.is_match("charged"));
    assert!(!plain.is_match("amulet  of"));
}

#[test]
fn equipment_image_and_version_label() {
    let mut glory = item(0, "Amulet of glory", "Neck");
    glory.image = "Amulet of glory.png".to_string();
    assert_eq!(glory.image_path(), "/assets/equipment/Amulet of glory.png");
    assert_eq!(glory.version_label(), None);
    glory.version = Some("Charged".to_string());
    assert_eq!(glory.version_label(), Some("Version: Charged".to_string()));
}

#[test]
fn clone_keeps_every_field() {
    let mut w = weapon(3, "Rune scimitar");
    w.version = Some("Normal".to_string());
    let c = w.clone();
    assert_eq!(c.id, 3);
    assert_eq!(c.name, w.name);
    assert_eq!(c.version, w.version);
    assert_eq!(c.slot, w.slot);
    assert_eq!(c.image, w.image);
    assert_eq!(c.category, w.category);
    assert_eq!(c.speed, Some(4));
    assert_eq!(c.attack_range, Some(1));
    assert_eq!(c.is_two_handed, Some(false));
}

#[test]
fn equip_kind_ignores_the_case_of_the_slot_tag() {
    assert_eq!(item(0, "a", "weapon").equip_kind(), EquipKind::Weapon);
    assert_eq!(item(0, "a", "Weapon").equip_kind(), EquipKind::Weapon);
    assert_eq!(item(0, "a", "WEAPON").equip_kind(), EquipKind::Weapon);
    assert_eq!(item(0, "a", "weapons").equip_kind(), EquipKind::Armor);
    assert_eq!(item(0, "a", "body").equip_kind(), EquipKind::Armor);
    assert_eq!(item(0, "a", "").equip_kind(), EquipKind::Armor);
    assert_eq!(item(0, "a", "2h").equip_kind(), EquipKind::Armor);
}

#[test]
fn equip_report_words_each_failure() {
    let sword = item(0, "Rune scimitar", "Weapon");
    let body = item(1, "Rune platebody", "Body");
    assert_eq!(sword.equip_report(&EquipOutcome::Equipped), None);
    assert_eq!(
        sword.equip_report(&EquipOutcome::NotConvertible),
        Some("Failed to convert 'Rune scimitar' to weapon".to_string())
    );
    assert_eq!(
        body.equip_report(&EquipOutcome::NotConvertible),
        Some("Failed to convert 'Rune platebody' to armor".to_string())
    );
    assert_eq!(
        sword.equip_report(&EquipOutcome::Refused("slot is locked".to_string())),
        Some("Failed to equip weapon: slot is locked".to_string())
    );
    assert_eq!(
        body.equip_report(&EquipOutcome::Refused(String::new())),
        Some("Failed to equip armor: ".to_string())
    );
}

#[test]
fn failed_conversion_still_resets_the_selector() {
    let mut scimitar = weapon(0, "Rune scimitar");
    scimitar.category = Some("No such category".to_string());
    let catalog = match load_catalog(Some(vec![scimitar, item(1, "Rune platebody", "body")])) {
        Catalog::Ready(records) => records,
        Catalog::Unavailable => unreachable!(),
    };
    let mut props = SearchBarProps::new(catalog);
    props.placeholder = "Search for equipment...".to_string();
    let mut bar = SearchBar::new(props);
    bar.on_input("scim".to_string());
    let reaction = bar.on_key(Key::Enter);
    let picked = match reaction.command {
        Command::Select(position) => &bar.items()[position],
        other => panic!("expected a selection, got {other:?}"),
    };
    // the host cannot turn a record with an unknown category into a weapon
    assert_eq!(picked.equip_kind(), EquipKind::Weapon);
    assert!(!recompute_after(&EquipOutcome::NotConvertible));
    let logged = picked.equip_report(&EquipOutcome::NotConvertible);
    assert_eq!(logged, Some("Failed to convert 'Rune scimitar' to weapon".to_string()));
    assert_eq!(bar.query(), "");
    assert!(!bar.is_open());
    assert_eq!(bar.highlighted(), None);
}

#[test]
fn grid_rows_place_the_eleven_slots() {
    assert_eq!(
        grid_rows(),
        vec![
            vec![GearSlot::Head],
            vec![GearSlot::Cape, GearSlot::Neck, GearSlot::Ammo],
            vec![GearSlot::Weapon, GearSlot::Body, GearSlot::Shield],
            vec![GearSlot::Legs],
            vec![GearSlot::Hands, GearSlot::Feet, GearSlot::Ring],
        ]
    );
}

#[test]
fn empty_slot_shows_the_placeholder() {
    let view = slot_view(&None, "head");
    assert_eq!(view.title, "");
    assert!(!view.occupied);
    assert!(!view.missing_image);
    assert_eq!(view.image, SlotImage::Placeholder { src: "/assets/placeholders/head.png".into() });
    assert_eq!(placeholder_path("weapon"), "/assets/placeholders/weapon.png");
}

#[test]
fn occupied_slot_shows_the_item() {
    let held = Some(SlotItem { name: "Rune scimitar".into(), image: "Rune scimitar.png".into() });
    let view = slot_view(&held, "weapon");
    assert_eq!(view.title, "Rune scimitar");
    assert!(view.occupied);
    assert!(!view.missing_image);
    assert_eq!(view.image, SlotImage::Item { src: "/assets/equipment/Rune scimitar.png".into() });
}

#[test]
fn unarmed_and_pictureless_items_show_the_placeholder() {
    let unarmed = Some(SlotItem { name: "Unarmed".into(), image: "fist.png".into() });
    let view = slot_view(&unarmed, "weapon");
    assert_eq!(view.title, "Unarmed");
    assert!(view.occupied);
    assert!(!view.missing_image);
    assert_eq!(view.image, SlotImage::Placeholder { src: "/assets/placeholders/weapon.png".into() });

    let bare = Some(SlotItem { name: "Mystery ring".into(), image: String::new() });
    let view = slot_view(&bare, "ring");
    assert!(view.occupied);
    assert!(view.missing_image);
    assert_eq!(view.image, SlotImage::Placeholder { src: "/assets/placeholders/ring.png".into() });
}

#[test]
fn only_a_successful_equip_asks_for_recomputation() {
    assert!(recompute_after(&EquipOutcome::Equipped));
    assert!(!recompute_after(&EquipOutcome::NotConvertible));
    assert!(!recompute_after(&EquipOutcome::Refused("two-handed".to_string())));
}
