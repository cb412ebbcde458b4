use loadout::panel::Panel;
use loadout::prayers::{
    grid_cells, is_active, lit_prayers, prayer_img_path, prayer_rows, selected_overlay_path,
    shown_in_grid, toggle, Prayer, PrayerAction, GRID_WIDTH,
};

#[test]
fn prayer_grid_has_five_rows_of_five() {
    let rows = prayer_rows();
    assert_eq!(GRID_WIDTH, 5);
    assert_eq!(
        rows,
        vec![
            vec![Prayer::ClarityOfThought, Prayer::BurstOfStrength, Prayer::ThickSkin, Prayer::SharpEye, Prayer::MysticWill],
            vec![Prayer::ImprovedReflexes, Prayer::SuperhumanStrength, Prayer::RockSkin, Prayer::HawkEye, Prayer::MysticLore],
            vec![Prayer::IncredibleReflexes, Prayer::UltimateStrength, Prayer::SteelSkin, Prayer::EagleEye, Prayer::MysticMight],
            vec![Prayer::Chivalry, Prayer::Deadeye, Prayer::MysticVigour, Prayer::Empty, Prayer::Empty],
            vec![Prayer::Piety, Prayer::Rigour, Prayer::Augury, Prayer::Empty, Prayer::Empty],
        ]
    );
    let flat: Vec<Prayer> = rows.into_iter().flatten().collect();
    assert_eq!(flat, grid_cells());
}

#[test]
fn filler_cells_are_not_shown() {
    assert!(!shown_in_grid(Prayer::Empty));
    assert!(shown_in_grid(Prayer::Piety));
    assert_eq!(grid_cells().into_iter().filter(|p| shown_in_grid(*p)).count(), 21);
}

#[test]
fn lit_prayers_come_in_grid_order() {
    let active = vec![Prayer::Piety, Prayer::Empty, Prayer::ThickSkin, Prayer::EagleEye];
    assert_eq!(lit_prayers(&active), vec![Prayer::ThickSkin, Prayer::EagleEye, Prayer::Piety]);
    assert!(lit_prayers(&vec![]).is_empty());
    assert!(lit_prayers(&vec![Prayer::Empty]).is_empty());
    assert_eq!(lit_prayers(&vec![Prayer::Rigour, Prayer::Rigour]), vec![Prayer::Rigour]);
}

#[test]
fn a_press_switches_a_prayer() {
    let active = vec![Prayer::Piety];
    assert!(is_active(&active, Prayer::Piety));
    assert!(!is_active(&active, Prayer::Rigour));
    assert_eq!(toggle(&active, Prayer::Piety), PrayerAction::Remove);
    assert_eq!(toggle(&active, Prayer::Rigour), PrayerAction::Add);
    assert_eq!(toggle(&vec![], Prayer::Piety), PrayerAction::Add);
}

#[test]
fn prayer_pictures_use_underscores() {
    assert_eq!(
        prayer_img_path("/assets/prayers", "Clarity of Thought"),
        "/assets/prayers/Clarity_of_Thought.png"
    );
    assert_eq!(prayer_img_path("/assets/prayers", "Piety"), "/assets/prayers/Piety.png");
    assert_eq!(prayer_img_path("", "  a  "), "/__a__.png");
    assert_eq!(selected_overlay_path("/assets/prayers"), "/assets/prayers/selected.png");
}

#[test]
fn panel_folds_and_unfolds() {
    let mut panel = Panel::new();
    assert!(!panel.collapsed);
    assert!(panel.shows_body());
    assert!(!panel.shows_summary(3));
    panel.toggle();
    assert!(panel.collapsed);
    assert!(!panel.shows_body());
    assert!(panel.shows_summary(3));
    assert!(!panel.shows_summary(0));
    panel.toggle();
    assert_eq!(panel, Panel::new());
}
