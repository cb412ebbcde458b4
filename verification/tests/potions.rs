use loadout::potions::{
    active_potions, at_capacity, available_potions, empty_slots, holds, may_add, potion_img_path,
    potion_selector_props, Potion, PotionBoosts, MAX_ACTIVE_POTIONS, POTION_MAX_RESULTS,
};
use loadout::search_bar::{Command, Key, SearchBar, SearchItem};

const NONE: u32 = 0;

fn potion(code: u32, name: &str) -> Potion {
    Potion { code, name: name.to_string() }
}

fn all_potions() -> Vec<Potion> {
    vec![
        potion(0, "None"),
        potion(1, "Attack"),
        potion(2, "Strength"),
        potion(3, "Super attack"),
        potion(4, "Super strength"),
        potion(5, "Ranging"),
        potion(6, "Overload (-)"),
        potion(7, "Overload (+)"),
        potion(8, "Smelling salts"),
    ]
}

fn boosts(lists: [Option<Vec<u32>>; 5]) -> PotionBoosts {
    let [attack, strength, defence, ranged, magic] = lists;
    PotionBoosts { attack, strength, defence, ranged, magic }
}

#[test]
fn no_boosts_no_active_potions() {
    assert!(active_potions(&boosts([None, None, None, None, None])).is_empty());
    assert!(active_potions(&boosts([Some(vec![]), None, Some(vec![]), None, None])).is_empty());
}

#[test]
fn active_potions_are_distinct_in_first_seen_order() {
    let b = boosts([
        Some(vec![7, 3]),
        Some(vec![7, 4]),
        Some(vec![7]),
        Some(vec![5, 7]),
        Some(vec![7, 3, 9]),
    ]);
    assert_eq!(active_potions(&b), vec![7, 3, 4, 5, 9]);
    let b = boosts([None, Some(vec![2, 2, 2]), None, None, Some(vec![1, 2])]);
    assert_eq!(active_potions(&b), vec![2, 1]);
}

#[test]
fn holds_finds_codes() {
    assert!(holds(&vec![4, 5, 6], 6));
    assert!(!holds(&vec![4, 5, 6], 7));
    assert!(!holds(&vec![], 0));
}

#[test]
fn available_potions_skip_none_and_active() {
    let free = available_potions(&all_potions(), &vec![3, 7], NONE);
    let codes: Vec<u32> = free.iter().map(|p| p.code).collect();
    assert_eq!(codes, vec![1, 2, 4, 5, 6, 8]);
    assert_eq!(free[0].name, "Attack");
    let free = available_potions(&all_potions(), &vec![], NONE);
    assert_eq!(free.len(), 8);
    let free = available_potions(&all_potions(), &vec![1, 2, 3, 4, 5, 6, 7, 8], NONE);
    assert!(free.is_empty());
}

#[test]
fn capacity_is_four() {
    assert_eq!(MAX_ACTIVE_POTIONS, 4);
    assert!(!at_capacity(0));
    assert!(!at_capacity(3));
    assert!(at_capacity(4));
    assert!(at_capacity(5));
    assert!(may_add(3));
    assert!(!may_add(4));
    assert_eq!(empty_slots(0), 4);
    assert_eq!(empty_slots(1), 3);
    assert_eq!(empty_slots(4), 0);
    assert_eq!(empty_slots(9), 0);
}

#[test]
fn potion_pictures_share_a_file_across_strengths() {
    assert_eq!(potion_img_path("Attack"), "/assets/potions/Attack.png");
    assert_eq!(potion_img_path("Overload (-)"), "/assets/potions/Overload.png");
    assert_eq!(potion_img_path("Overload (+)"), "/assets/potions/Overload.png");
    assert_eq!(potion_img_path("Overload"), "/assets/potions/Overload.png");
    assert_eq!(potion_img_path("Odd (+) (-) (+)"), "/assets/potions/Odd.png");
    assert_eq!(potion_img_path("Super combat (4)"), "/assets/potions/Super combat (4).png");
}

#[test]
fn potion_key_and_filter_use_the_name() {
    let p = potion(6, "Overload (-)");
    assert_eq!(p.key(), "6-Overload (-)");
    assert_ne!(potion(7, "Overload (-)").key(), p.key());
    assert_eq!(potion(6, "Overload (-)").key(), p.key());
    assert!(p.is_match("over"));
    assert!(p.is_match("(-)"));
    assert!(!p.is_match("Over"));
    assert!(!p.is_match("(+)"));
    let c = p.clone();
    assert_eq!((c.code, c.name), (6, "Overload (-)".to_string()));
}

#[test]
fn potion_selector_offers_what_is_free() {
    let props = potion_selector_props(&all_potions(), &vec![3], NONE);
    assert_eq!(props.placeholder, "Search for boosts...");
    assert_eq!(props.max_results, 10);
    assert_eq!(POTION_MAX_RESULTS, 10);
    assert!(!props.disabled);
    let mut bar = SearchBar::new(props);
    bar.on_input("super".to_string());
    assert_eq!(bar.results().len(), 1);
    assert_eq!(bar.item_at(0).unwrap().name, "Super strength");
    let r = bar.on_key(Key::Enter);
    assert_eq!(r.command, Command::Select(2));
    assert_eq!(bar.items()[2].code, 4);
}

#[test]
fn four_active_potions_disable_the_selector() {
    let active = vec![1, 2, 3, 4];
    let props = potion_selector_props(&all_potions(), &active, NONE);
    assert!(props.disabled);
    let mut bar = SearchBar::new(props);
    for query in ["r", "ranging", "Overload", " ", "salts"] {
        bar.on_input(query.to_string());
        bar.on_focus_in();
        assert!(!bar.is_open());
        assert!(!bar.dropdown_visible());
        assert!(bar.results().is_empty());
    }
    assert_eq!(bar.on_key(Key::Enter).command, Command::Nothing);
    // three active potions leave it enabled
    let props = potion_selector_props(&all_potions(), &vec![1, 2, 3], NONE);
    assert!(!props.disabled);
    let mut bar = SearchBar::new(props);
    bar.on_input("r".to_string());
    assert!(bar.dropdown_visible());
}
