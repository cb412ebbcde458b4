use loadout::skills::{
    all_skills, combat_skills, get_skill_levels, parse_level_input, set_skill_base_level,
    summary_rows, Level, LookupOutcome, Skill, StatLookup, Stats, MAX_LEVEL,
};
use loadout::text::{decimal_string, join2, join3, same_text, trim};

fn stats() -> Stats {
    Stats {
        attack: Level { base: 60, current: 66 },
        strength: Level { base: 70, current: 77 },
        defence: Level { base: 45, current: 45 },
        ranged: Level { base: 80, current: 88 },
        magic: Level { base: 55, current: 50 },
        hitpoints: Level { base: 75, current: 12 },
        prayer: Level { base: 52, current: 0 },
        mining: Level { base: 33, current: 36 },
        herblore: Level { base: 1, current: 1 },
    }
}

#[test]
fn skill_names_and_icons() {
    let names: Vec<&str> = all_skills().iter().map(|s| s.name()).collect();
    assert_eq!(
        names,
        vec![
            "Attack", "Strength", "Defence", "Ranged", "Magic", "Hitpoints", "Prayer", "Mining",
            "Herblore"
        ]
    );
    assert_eq!(Skill::Attack.icon_path("/assets/bonuses"), "/assets/bonuses/attack.png");
    assert_eq!(Skill::Hitpoints.icon_path("/assets/bonuses"), "/assets/bonuses/hitpoints.png");
    assert_eq!(Skill::Herblore.icon_path(""), "/herblore.png");
}

#[test]
fn skill_lists_and_summary_rows() {
    assert_eq!(
        all_skills(),
        vec![Skill::Attack, Skill::Strength, Skill::Defence, Skill::Ranged, Skill::Magic, Skill::Hitpoints, Skill::Prayer, Skill::Mining, Skill::Herblore]
    );
    assert_eq!(combat_skills(), vec![Skill::Attack, Skill::Strength, Skill::Defence, Skill::Ranged, Skill::Magic, Skill::Hitpoints]);
    let (first, second) = summary_rows();
    assert_eq!(first, vec![Skill::Attack, Skill::Strength, Skill::Defence]);
    assert_eq!(second, vec![Skill::Ranged, Skill::Magic, Skill::Hitpoints]);
}

#[test]
fn levels_are_read_by_skill() {
    let s = stats();
    assert_eq!(get_skill_levels(&s, Skill::Attack), (60, 66));
    assert_eq!(get_skill_levels(&s, Skill::Strength), (70, 77));
    assert_eq!(get_skill_levels(&s, Skill::Defence), (45, 45));
    assert_eq!(get_skill_levels(&s, Skill::Ranged), (80, 88));
    assert_eq!(get_skill_levels(&s, Skill::Magic), (55, 50));
    assert_eq!(get_skill_levels(&s, Skill::Hitpoints), (75, 12));
    assert_eq!(get_skill_levels(&s, Skill::Prayer), (52, 0));
    assert_eq!(get_skill_levels(&s, Skill::Mining), (33, 36));
    assert_eq!(get_skill_levels(&s, Skill::Herblore), (1, 1));
}

#[test]
fn setting_a_base_level_touches_one_skill() {
    for skill in all_skills() {
        let mut s = stats();
        let (_, current) = get_skill_levels(&s, skill);
        set_skill_base_level(&mut s, skill, 99);
        assert_eq!(get_skill_levels(&s, skill), (99, current));
        for other in all_skills() {
            if other != skill {
                assert_eq!(get_skill_levels(&s, other), get_skill_levels(&stats(), other));
            }
        }
    }
}

#[test]
fn level_input_takes_zero_to_ninety_nine() {
    assert_eq!(MAX_LEVEL, 99);
    assert_eq!(parse_level_input("0"), Some(0));
    assert_eq!(parse_level_input("1"), Some(1));
    assert_eq!(parse_level_input("99"), Some(99));
    assert_eq!(parse_level_input("099"), Some(99));
    assert_eq!(parse_level_input("+7"), Some(7));
    assert_eq!(parse_level_input("100"), None);
    assert_eq!(parse_level_input("255"), None);
    assert_eq!(parse_level_input("256"), None);
    assert_eq!(parse_level_input(""), None);
    assert_eq!(parse_level_input("+"), None);
    assert_eq!(parse_level_input("-1"), None);
    assert_eq!(parse_level_input("-0"), None);
    assert_eq!(parse_level_input(" 5"), None);
    assert_eq!(parse_level_input("5 "), None);
    assert_eq!(parse_level_input("5.0"), None);
    assert_eq!(parse_level_input("1_0"), None);
    assert_eq!(parse_level_input("++5"), None);
    assert_eq!(parse_level_input("ten"), None);
    assert_eq!(parse_level_input("٣"), None);
}

#[test]
fn lookup_starts_with_a_trimmed_name() {
    let mut lookup = StatLookup::new();
    assert!(lookup.button_disabled());
    assert_eq!(lookup.submit(), None);
    lookup.on_input("   ".to_string());
    assert!(lookup.button_disabled());
    assert_eq!(lookup.submit(), None);
    assert!(!lookup.loading);
    lookup.on_input("  Zezima \t".to_string());
    assert!(!lookup.button_disabled());
    assert_eq!(lookup.submit(), Some("Zezima".to_string()));
    assert!(lookup.loading);
    assert_eq!(lookup.error, None);
    assert_eq!(lookup.input, "  Zezima \t");
    // busy: box and button are inert
    assert!(lookup.button_disabled());
    assert_eq!(lookup.submit(), None);
    lookup.on_input("someone else".to_string());
    assert_eq!(lookup.input, "  Zezima \t");
    assert_eq!(lookup.on_key(true), None);
    assert!(lookup.loading);
}

#[test]
fn lookup_success_empties_the_box() {
    let mut lookup = StatLookup::new();
    lookup.on_input("Zezima".to_string());
    assert_eq!(lookup.on_key(false), None);
    assert!(!lookup.loading);
    assert_eq!(lookup.on_key(true), Some("Zezima".to_string()));
    lookup.finish(LookupOutcome::Loaded);
    assert!(!lookup.loading);
    assert_eq!(lookup.input, "");
    assert_eq!(lookup.error, None);
    assert_eq!(lookup.on_key(true), None);
}

#[test]
fn lookup_failure_shows_the_error_and_keeps_the_name() {
    let mut lookup = StatLookup::new();
    lookup.on_input("Zezima".to_string());
    assert!(lookup.submit().is_some());
    lookup.finish(LookupOutcome::Failed("request timed out".to_string()));
    assert!(!lookup.loading);
    assert_eq!(lookup.input, "Zezima");
    assert_eq!(lookup.error, Some("Failed to lookup stats: request timed out".to_string()));
    // the next attempt clears the error at once
    assert_eq!(lookup.submit(), Some("Zezima".to_string()));
    assert_eq!(lookup.error, None);
    lookup.finish(LookupOutcome::Loaded);
    assert_eq!(lookup.error, None);
}

#[test]
fn enter_in_a_blank_box_does_nothing() {
    let mut lookup = StatLookup::new();
    assert_eq!(lookup.on_key(true), None);
    lookup.on_input(" ".to_string());
    assert_eq!(lookup.on_key(true), None);
    assert!(!lookup.loading);
}

#[test]
fn trim_cuts_white_space_at_both_ends() {
    assert_eq!(trim(""), "");
    assert_eq!(trim("   "), "");
    assert_eq!(trim("a"), "a");
    assert_eq!(trim(" a b  "), "a b");
    assert_eq!(trim("\t\n x\u{a0}\u{2003}"), "x");
    assert_eq!(trim("é "), "é");
    assert_eq!(trim("\u{200b}a"), "\u{200b}a");
    for s in ["", " ", "ab", "  ab", "ab  ", " a  b ", "\r\nq\r\n"] {
        assert_eq!(trim(s), s.trim());
    }
}

#[test]
fn text_helpers() {
    assert_eq!(decimal_string(0), "0");
    assert_eq!(decimal_string(9), "9");
    assert_eq!(decimal_string(10), "10");
    assert_eq!(decimal_string(405), "405");
    assert_eq!(decimal_string(usize::MAX), usize::MAX.to_string());
    assert_eq!(join2("ab", "cd"), "abcd");
    assert_eq!(join2("", ""), "");
    assert_eq!(join3("a", "-", "b"), "a-b");
    assert!(same_text("Unarmed", "Unarmed"));
    assert!(!same_text("Unarmed", "unarmed"));
    assert!(same_text("", ""));
}
